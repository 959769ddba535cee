//! Operation batches and the order in which their operations run.
use vstd::prelude::*;

use crate::felt::{Felt, felt};
use crate::operation::Operation;
use crate::power::{lemma_next_power_small, next_power, next_power_of_two};

verus! {

/// Maximum number of operations per group.
pub const GROUP_SIZE: usize = 9;

/// Maximum number of groups per batch.
pub const BATCH_SIZE: usize = 8;

/// A batch of up to eight groups; a group holds up to nine operations or one immediate value.
#[derive(Debug)]
pub struct OpBatch {
    /// Operations of the batch, without the NOOPs that are inserted when the batch is run.
    pub ops: Vec<Operation>,
    /// Encoded groups, immediate values among them.
    pub groups: [Felt; 8],
    /// Number of operations in each group; zero for groups that hold an immediate value.
    pub op_counts: [usize; 8],
    /// Number of groups in the batch.
    pub num_groups: usize,
}

/// Where in a batch an operation stands.
pub struct BatchCursor {
    /// Group that holds the operation.
    pub group: int,
    /// Next group that is free when the operation is about to run.
    pub next_group: int,
    /// Index of the operation within its group.
    pub op_in_group: int,
}

/// What running a batch consists of.
#[derive(Clone, Copy, Debug, PartialEq, Eq, Structural)]
pub enum BatchStep {
    /// Run an operation that has the given index within its group.
    ExecuteOp { op: Operation, op_idx_in_group: usize },
    /// Start decoding a group.
    StartGroup { group: Felt },
}

impl OpBatch {
    /// Whether the operation under the cursor is the last one of its group.
    pub open spec fn closes_group(&self, at: BatchCursor) -> bool {
        at.op_in_group == self.op_counts@[at.group] - 1
    }

    /// The cursor after the operation under it has run.
    pub open spec fn advance(&self, at: BatchCursor, op: Operation) -> BatchCursor {
        let next_group = if op.immediate() is Some {
            at.next_group + 1
        } else {
            at.next_group
        };
        if self.closes_group(at) {
            BatchCursor { group: next_group, next_group: next_group + 1, op_in_group: 0 }
        } else {
            BatchCursor { group: at.group, next_group, op_in_group: at.op_in_group + 1 }
        }
    }

    /// The cursor at the `i`-th operation of the batch.
    pub open spec fn cursor(&self, i: int) -> BatchCursor
        decreases i,
    {
        if i <= 0 {
            BatchCursor { group: 0, next_group: 1, op_in_group: 0 }
        } else {
            self.advance(self.cursor(i - 1), self.ops@[i - 1])
        }
    }

    /// Whether running the `i`-th operation inserts a NOOP: an operation that carries an immediate
    /// value cannot be the last one of a group.
    pub open spec fn inserts_noop(&self, i: int) -> bool {
        self.ops@[i].immediate() is Some && self.closes_group(self.cursor(i))
    }

    /// Validity of a batch: each operation falls into a group that has room for it.
    pub open spec fn wf(&self) -> bool {
        &&& self.num_groups <= BATCH_SIZE
        &&& forall|g: int| 0 <= g < BATCH_SIZE ==> #[trigger] self.op_counts@[g] <= GROUP_SIZE
        &&& forall|i: int|
            0 <= i < self.ops@.len() ==> {
                let at = #[trigger] self.cursor(i);
                &&& 0 <= at.group < BATCH_SIZE
                &&& self.op_counts@[at.group] >= 1
                &&& self.inserts_noop(i) ==> at.op_in_group < GROUP_SIZE - 1
            }
    }

    /// Number of groups that are run: the number of groups, rounded up to a power of two.
    pub open spec fn rounded_groups(&self) -> int {
        next_power(self.num_groups as nat) as int
    }

    /// Steps of the `i`-th operation: the operation itself and, where it is the last one of its
    /// group, the NOOP after it and the start of the next group.
    pub open spec fn op_steps(&self, i: int) -> Seq<BatchStep> {
        let at = self.cursor(i);
        let run = seq![
            BatchStep::ExecuteOp { op: self.ops@[i], op_idx_in_group: at.op_in_group as usize },
        ];
        if self.closes_group(at) {
            let noop = if self.ops@[i].immediate() is Some {
                seq![
                    BatchStep::ExecuteOp {
                        op: Operation::Noop,
                        op_idx_in_group: (at.op_in_group + 1) as usize,
                    },
                ]
            } else {
                seq![]
            };
            let next = self.cursor(i + 1).group;
            let start = if next < self.rounded_groups() {
                seq![BatchStep::StartGroup { group: self.groups@[next] }]
            } else {
                seq![]
            };
            run + noop + start
        } else {
            run
        }
    }

    /// Steps of the operations before the `i`-th one.
    pub open spec fn steps_before(&self, i: int) -> Seq<BatchStep>
        decreases i,
    {
        if i <= 0 {
            seq![]
        } else {
            self.steps_before(i - 1) + self.op_steps(i - 1)
        }
    }

    /// Steps of a group that only pads the batch: one NOOP.
    pub open spec fn padding_steps(&self, g: int) -> Seq<BatchStep> {
        let run = seq![BatchStep::ExecuteOp { op: Operation::Noop, op_idx_in_group: 0usize }];
        if g < self.rounded_groups() - 1 {
            run.push(BatchStep::StartGroup { group: felt(0) })
        } else {
            run
        }
    }

    /// Steps of the padding groups from `first` up to, not including, `g`.
    pub open spec fn padding_before(&self, first: int, g: int) -> Seq<BatchStep>
        decreases g - first,
    {
        if g <= first {
            seq![]
        } else {
            self.padding_before(first, g - 1) + self.padding_steps(g - 1)
        }
    }

    /// Positions, as group and index within the group, of the operations that run for the `i`-th
    /// operation: its own and, where a NOOP is inserted, that of the NOOP right after it.
    pub open spec fn op_positions(&self, i: int) -> Seq<(int, int)> {
        let at = self.cursor(i);
        if self.inserts_noop(i) {
            seq![(at.group, at.op_in_group), (at.group, at.op_in_group + 1)]
        } else {
            seq![(at.group, at.op_in_group)]
        }
    }

    /// Positions of all that runs for the operations before the `i`-th one.
    pub open spec fn positions_before(&self, i: int) -> Seq<(int, int)>
        decreases i,
    {
        if i <= 0 {
            seq![]
        } else {
            self.positions_before(i - 1) + self.op_positions(i - 1)
        }
    }

    /// Positions of the NOOPs in the padding groups from `first` up to, not including, `g`.
    pub open spec fn padding_positions(&self, first: int, g: int) -> Seq<(int, int)> {
        Seq::new(
            if g > first {
                (g - first) as nat
            } else {
                0
            },
            |k: int| (first + k, 0int),
        )
    }

    /// Positions of everything that runs in the batch, inserted NOOPs and padding included.
    pub open spec fn runtime_positions(&self) -> Seq<(int, int)> {
        let n = self.ops@.len() as int;
        self.positions_before(n) + self.padding_positions(
            self.cursor(n).group,
            self.rounded_groups(),
        )
    }

    /// Positions stand within the groups of a batch.
    pub proof fn lemma_positions_in_range(&self, k: int)
        requires
            self.wf(),
            0 <= k < self.runtime_positions().len(),
        ensures
            0 <= self.runtime_positions()[k].0 < BATCH_SIZE,
            0 <= self.runtime_positions()[k].1 < GROUP_SIZE,
    {
        let n = self.ops@.len() as int;
        lemma_next_power_small(self.num_groups as nat);
        lemma_cursor_in_group(self, n);
        lemma_positions_before_in_range(self, n, k);
    }

    /// What runs first stands at the start of the first group.
    pub proof fn lemma_first_position(&self)
        requires
            self.runtime_positions().len() > 0,
        ensures
            self.runtime_positions()[0] == (0int, 0int),
    {
        let n = self.ops@.len() as int;
        if n > 0 {
            lemma_op_positions_stand_in_batch(self, 0);
            assert(self.op_positions(0)[0] == (0int, 0int));
        }
    }

    /// The steps of running the whole batch.
    pub open spec fn schedule(&self) -> Seq<BatchStep> {
        let n = self.ops@.len() as int;
        self.steps_before(n) + self.padding_before(self.cursor(n).group, self.rounded_groups())
    }
}

/// Number of operations among the steps.
pub open spec fn count_ops(steps: Seq<BatchStep>) -> nat
    decreases steps.len(),
{
    if steps.len() == 0 {
        0
    } else {
        count_ops(steps.drop_first()) + if steps[0] is ExecuteOp {
            1nat
        } else {
            0nat
        }
    }
}

/// The operations among the steps, in order.
pub open spec fn run_ops(steps: Seq<BatchStep>) -> Seq<Operation>
    decreases steps.len(),
{
    if steps.len() == 0 {
        seq![]
    } else {
        match steps[0] {
            BatchStep::ExecuteOp { op, .. } => seq![op] + run_ops(steps.drop_first()),
            BatchStep::StartGroup { .. } => run_ops(steps.drop_first()),
        }
    }
}

/// The indices within their groups of the operations among the steps, in order.
pub open spec fn run_indices(steps: Seq<BatchStep>) -> Seq<usize>
    decreases steps.len(),
{
    if steps.len() == 0 {
        seq![]
    } else {
        match steps[0] {
            BatchStep::ExecuteOp { op_idx_in_group, .. } => seq![op_idx_in_group] + run_indices(
                steps.drop_first(),
            ),
            BatchStep::StartGroup { .. } => run_indices(steps.drop_first()),
        }
    }
}

/// The steps from the `n`-th operation on.
pub open spec fn skip_ops(steps: Seq<BatchStep>, n: int) -> Seq<BatchStep>
    decreases steps.len(),
{
    if steps.len() == 0 {
        steps
    } else if steps[0] is ExecuteOp && n <= 0 {
        steps
    } else {
        skip_ops(
            steps.drop_first(),
            if steps[0] is ExecuteOp {
                n - 1
            } else {
                n
            },
        )
    }
}

proof fn lemma_cursor_in_group(batch: &OpBatch, i: int)
    requires
        batch.wf(),
        0 <= i <= batch.ops@.len(),
    ensures
        0 <= batch.cursor(i).group < batch.cursor(i).next_group <= 1 + 2 * i,
        0 <= batch.cursor(i).op_in_group,
        i <= 9 * batch.cursor(i).group + batch.cursor(i).op_in_group,
        i <= 72,
        i < batch.ops@.len() ==> batch.cursor(i).op_in_group < batch.op_counts@[batch.cursor(
            i,
        ).group] <= GROUP_SIZE,
    decreases i,
{
    if i > 0 {
        lemma_cursor_in_group(batch, i - 1);
        let before = batch.cursor(i - 1);
        assert(batch.cursor(i) == batch.advance(before, batch.ops@[i - 1]));
    }
}

impl OpBatch {
    /// Whether each operation falls into a group that has room for it.
    pub fn is_valid(&self) -> (r: bool)
        ensures
            r == self.wf(),
    {
        if self.num_groups > BATCH_SIZE {
            return false;
        }
        for g in 0..BATCH_SIZE
            invariant
                forall|k: int| 0 <= k < g ==> #[trigger] self.op_counts@[k] <= GROUP_SIZE,
        {
            if self.op_counts[g] > GROUP_SIZE {
                return false;
            }
        }

        let mut op_idx_in_group: usize = 0;
        let mut group_idx: usize = 0;
        let mut next_group_idx: usize = 1;
        for i in 0..self.ops.len()
            invariant
                forall|k: int| 0 <= k < BATCH_SIZE ==> #[trigger] self.op_counts@[k] <= GROUP_SIZE,
                self.num_groups <= BATCH_SIZE,
                group_idx == self.cursor(i as int).group,
                next_group_idx == self.cursor(i as int).next_group,
                op_idx_in_group == self.cursor(i as int).op_in_group,
                group_idx < next_group_idx,
                next_group_idx <= group_idx + 1 + op_idx_in_group,
                group_idx <= 18,
                op_idx_in_group > 0 ==> group_idx < BATCH_SIZE && op_idx_in_group
                    < self.op_counts@[group_idx as int],
                forall|k: int|
                    0 <= k < i ==> {
                        let at = #[trigger] self.cursor(k);
                        &&& 0 <= at.group < BATCH_SIZE
                        &&& self.op_counts@[at.group] >= 1
                        &&& self.inserts_noop(k) ==> at.op_in_group < GROUP_SIZE - 1
                    },
        {
            let ghost at = self.cursor(i as int);
            assert(self.cursor(i + 1) == self.advance(at, self.ops@[i as int]));
            if group_idx >= BATCH_SIZE || self.op_counts[group_idx] < 1 {
                return false;
            }
            let has_imm = self.ops[i].imm_value().is_some();
            let closes = op_idx_in_group == self.op_counts[group_idx] - 1;
            if has_imm && closes && op_idx_in_group >= GROUP_SIZE - 1 {
                assert(self.inserts_noop(i as int));
                return false;
            }
            if has_imm {
                next_group_idx = next_group_idx + 1;
            }
            if closes {
                group_idx = next_group_idx;
                next_group_idx = next_group_idx + 1;
                op_idx_in_group = 0;
            } else {
                op_idx_in_group = op_idx_in_group + 1;
            }
        }
        true
    }
}

/// The steps of running the batch from its first operation on.
fn full_schedule(batch: &OpBatch) -> (r: Vec<BatchStep>)
    requires
        batch.wf(),
    ensures
        r@ == batch.schedule(),
{
    let mut steps: Vec<BatchStep> = Vec::new();
    let mut op_idx_in_group: usize = 0;
    let mut group_idx: usize = 0;
    let mut next_group_idx: usize = 1;
    proof {
        lemma_next_power_small(batch.num_groups as nat);
    }
    let num_batch_groups: usize = next_power_of_two(batch.num_groups);
    let ghost n = batch.ops@.len() as int;

    for i in 0..batch.ops.len()
        invariant
            batch.wf(),
            n == batch.ops@.len(),
            num_batch_groups == batch.rounded_groups(),
            num_batch_groups <= 8,
            group_idx == batch.cursor(i as int).group,
            next_group_idx == batch.cursor(i as int).next_group,
            op_idx_in_group == batch.cursor(i as int).op_in_group,
            steps@ == batch.steps_before(i as int),
    {
        proof {
            lemma_cursor_in_group(batch, i as int);
            lemma_cursor_in_group(batch, i + 1);
        }
        let ghost before = steps@;
        let ghost at = batch.cursor(i as int);
        assert(batch.cursor(i + 1) == batch.advance(at, batch.ops@[i as int]));
        let op = batch.ops[i];
        steps.push(BatchStep::ExecuteOp { op, op_idx_in_group });

        let has_imm = op.imm_value().is_some();
        if has_imm {
            next_group_idx = next_group_idx + 1;
        }
        if op_idx_in_group == batch.op_counts[group_idx] - 1 {
            if has_imm {
                assert(batch.inserts_noop(i as int));
                steps.push(
                    BatchStep::ExecuteOp {
                        op: Operation::Noop,
                        op_idx_in_group: op_idx_in_group + 1,
                    },
                );
            }
            group_idx = next_group_idx;
            next_group_idx = next_group_idx + 1;
            op_idx_in_group = 0;
            if group_idx < num_batch_groups {
                steps.push(BatchStep::StartGroup { group: batch.groups[group_idx] });
            }
        } else {
            op_idx_in_group = op_idx_in_group + 1;
        }
        assert(steps@ =~= before + batch.op_steps(i as int));
    }

    let first = group_idx;
    while group_idx < num_batch_groups
        invariant
            num_batch_groups == batch.rounded_groups(),
            num_batch_groups <= 8,
            first == batch.cursor(n).group,
            group_idx >= first,
            first >= num_batch_groups ==> group_idx == first,
            first < num_batch_groups ==> group_idx <= num_batch_groups,
            n == batch.ops@.len(),
            steps@ == batch.steps_before(n) + batch.padding_before(first as int, group_idx as int),
        decreases num_batch_groups - group_idx,
    {
        let ghost before = steps@;
        steps.push(BatchStep::ExecuteOp { op: Operation::Noop, op_idx_in_group: 0 });
        if group_idx < num_batch_groups - 1 {
            steps.push(BatchStep::StartGroup { group: Felt::zero() });
        }
        assert(steps@ =~= before + batch.padding_steps(group_idx as int));
        group_idx = group_idx + 1;
        assert(batch.padding_before(first as int, group_idx as int) == batch.padding_before(
            first as int,
            group_idx - 1,
        ) + batch.padding_steps(group_idx - 1));
        assert(steps@ =~= batch.steps_before(n) + batch.padding_before(
            first as int,
            group_idx as int,
        ));
    }
    steps
}

/// The steps of running a batch. If `start_op_idx` is provided, running begins with the operation
/// that has this index among the operations of the batch, inserted NOOPs included; the group that
/// it stands in has been started already.
pub fn execute_op_batch(batch: &OpBatch, start_op_idx: Option<usize>) -> (r: Vec<BatchStep>)
    requires
        batch.wf(),
    ensures
        r@ == skip_ops(
            batch.schedule(),
            match start_op_idx {
                Some(n) => n as int,
                None => 0,
            },
        ),
{
    let start: usize = match start_op_idx {
        Some(n) => n,
        None => 0,
    };
    let mut steps = full_schedule(batch);
    let ghost all = steps@;
    let mut ops_left: usize = start;
    let mut k: usize = 0;
    assert(all.skip(0) =~= all);
    while k < steps.len()
        invariant
            k <= steps@.len(),
            steps@ == all,
            all == batch.schedule(),
            start == (match start_op_idx {
                Some(n) => n,
                None => 0,
            }),
            skip_ops(all, start as int) == skip_ops(all.skip(k as int), ops_left as int),
        decreases steps@.len() - k,
    {
        let ghost rest = all.skip(k as int);
        assert(rest[0] == all[k as int]);
        assert(rest.drop_first() =~= all.skip(k + 1));
        match steps[k] {
            BatchStep::ExecuteOp { .. } => {
                if ops_left == 0 {
                    let tail = steps.split_off(k);
                    assert(tail@ =~= rest);
                    return tail;
                }
                ops_left = ops_left - 1;
            },
            BatchStep::StartGroup { .. } => {},
        }
        k = k + 1;
    }
    assert(all.skip(k as int) =~= Seq::<BatchStep>::empty());
    Vec::new()
}

/// Splits the index of an operation within a batch, NOOPs that are inserted when the batch is run
/// included, into
/// - the index of the operation's group, and
/// - the index of the operation within that group.
pub fn decompose_op_idx_in_batch(op_batch: &OpBatch, op_idx_in_batch: usize) -> (r: (usize, usize))
    requires
        op_batch.wf(),
        op_idx_in_batch < op_batch.runtime_positions().len(),
    ensures
        (r.0 as int, r.1 as int) == op_batch.runtime_positions()[op_idx_in_batch as int],
{
    proof {
        lemma_next_power_small(op_batch.num_groups as nat);
    }
    let num_batch_groups: usize = next_power_of_two(op_batch.num_groups);
    let ghost n = op_batch.ops@.len() as int;
    let ghost all = op_batch.runtime_positions();

    let mut runtime_op_idx: usize = 0;
    let mut static_op_idx: usize = 0;
    let mut group_idx: usize = 0;
    let mut next_group_idx: usize = 1;
    let mut op_idx_in_group: usize = 0;

    while static_op_idx < op_batch.ops.len()
        invariant
            op_batch.wf(),
            n == op_batch.ops@.len(),
            all == op_batch.runtime_positions(),
            op_idx_in_batch < all.len(),
            num_batch_groups == op_batch.rounded_groups(),
            num_batch_groups <= 8,
            static_op_idx <= n,
            group_idx == op_batch.cursor(static_op_idx as int).group,
            next_group_idx == op_batch.cursor(static_op_idx as int).next_group,
            op_idx_in_group == op_batch.cursor(static_op_idx as int).op_in_group,
            runtime_op_idx == op_batch.positions_before(static_op_idx as int).len(),
            runtime_op_idx <= op_idx_in_batch,
            runtime_op_idx <= 2 * static_op_idx,
        decreases n - static_op_idx,
    {
        let ghost i = static_op_idx as int;
        let ghost at = op_batch.cursor(i);
        proof {
            lemma_cursor_in_group(op_batch, i);
            lemma_cursor_in_group(op_batch, i + 1);
            lemma_op_positions_stand_in_batch(op_batch, i);
            assert(op_batch.cursor(i + 1) == op_batch.advance(at, op_batch.ops@[i]));
        }
        let op = op_batch.ops[static_op_idx];
        if runtime_op_idx == op_idx_in_batch {
            assert(op_batch.op_positions(i)[0] == (at.group, at.op_in_group));
            return (group_idx, op_idx_in_group);
        }
        runtime_op_idx = runtime_op_idx + 1;
        static_op_idx = static_op_idx + 1;

        let has_imm = op.imm_value().is_some();
        if has_imm {
            next_group_idx = next_group_idx + 1;
        }
        if op_idx_in_group == op_batch.op_counts[group_idx] - 1 {
            if has_imm {
                assert(op_batch.inserts_noop(i));
                if runtime_op_idx == op_idx_in_batch {
                    assert(op_batch.op_positions(i)[1] == (at.group, at.op_in_group + 1));
                    return (group_idx, op_idx_in_group + 1);
                }
                runtime_op_idx = runtime_op_idx + 1;
            }
            group_idx = next_group_idx;
            next_group_idx = next_group_idx + 1;
            op_idx_in_group = 0;
        } else {
            op_idx_in_group = op_idx_in_group + 1;
        }
    }

    // One NOOP runs in each of the groups that round the batch up to a power of two.
    let padding_before: usize = op_idx_in_batch - runtime_op_idx;
    (group_idx + padding_before, 0)
}

impl OpBatch {
    /// Number of operations that run in the batch, inserted NOOPs and padding included.
    pub fn num_runtime_ops(&self) -> (r: usize)
        requires
            self.wf(),
        ensures
            r == self.runtime_positions().len(),
    {
        let mut count: usize = 0;
        let mut op_idx_in_group: usize = 0;
        let mut group_idx: usize = 0;
        let mut next_group_idx: usize = 1;
        for i in 0..self.ops.len()
            invariant
                self.wf(),
                group_idx == self.cursor(i as int).group,
                next_group_idx == self.cursor(i as int).next_group,
                op_idx_in_group == self.cursor(i as int).op_in_group,
                count == self.positions_before(i as int).len(),
                count <= 2 * i,
        {
            proof {
                lemma_cursor_in_group(self, i as int);
                lemma_cursor_in_group(self, i + 1);
            }
            assert(self.cursor(i + 1) == self.advance(
                self.cursor(i as int),
                self.ops@[i as int],
            ));
            count = count + 1;
            let has_imm = self.ops[i].imm_value().is_some();
            if has_imm {
                next_group_idx = next_group_idx + 1;
            }
            if op_idx_in_group == self.op_counts[group_idx] - 1 {
                if has_imm {
                    assert(self.inserts_noop(i as int));
                    count = count + 1;
                }
                group_idx = next_group_idx;
                next_group_idx = next_group_idx + 1;
                op_idx_in_group = 0;
            } else {
                op_idx_in_group = op_idx_in_group + 1;
            }
        }
        proof {
            lemma_cursor_in_group(self, self.ops@.len() as int);
            lemma_next_power_small(self.num_groups as nat);
        }
        let num_batch_groups: usize = next_power_of_two(self.num_groups);
        if group_idx < num_batch_groups {
            count + (num_batch_groups - group_idx)
        } else {
            count
        }
    }
}

proof fn lemma_positions_before_in_range(batch: &OpBatch, n: int, k: int)
    requires
        batch.wf(),
        0 <= n <= batch.ops@.len(),
    ensures
        0 <= k < batch.positions_before(n).len() ==> {
            &&& 0 <= batch.positions_before(n)[k].0 < BATCH_SIZE
            &&& 0 <= batch.positions_before(n)[k].1 < GROUP_SIZE
        },
    decreases n,
{
    if n > 0 {
        lemma_positions_before_in_range(batch, n - 1, k);
        lemma_cursor_in_group(batch, n - 1);
    }
}

proof fn lemma_positions_grow(batch: &OpBatch, i: int, j: int)
    requires
        0 <= i <= j,
    ensures
        batch.positions_before(i).is_prefix_of(batch.positions_before(j)),
    decreases j,
{
    if i < j {
        lemma_positions_grow(batch, i, j - 1);
    }
}

pub proof fn lemma_op_positions_stand_in_batch(batch: &OpBatch, i: int)
    requires
        0 <= i < batch.ops@.len(),
    ensures
        ({
            let from = batch.positions_before(i).len() as int;
            let here = batch.op_positions(i);
            &&& batch.positions_before(i + 1).len() == from + here.len()
            &&& from + here.len() <= batch.runtime_positions().len()
            &&& forall|k: int|
                0 <= k < here.len() ==> batch.runtime_positions()[from + k] == #[trigger] here[k]
        }),
{
    let from = batch.positions_before(i).len() as int;
    let here = batch.op_positions(i);
    lemma_positions_grow(batch, i + 1, batch.ops@.len() as int);
    assert(batch.positions_before(i + 1) == batch.positions_before(i) + here);
    assert forall|k: int| 0 <= k < here.len() implies batch.runtime_positions()[from + k]
        == #[trigger] here[k] by {
        assert(batch.positions_before(i + 1)[from + k] == here[k]);
    }
}

// LAWS
// ================================================================================================

proof fn lemma_count_ops_concat(a: Seq<BatchStep>, b: Seq<BatchStep>)
    ensures
        count_ops(a + b) == count_ops(a) + count_ops(b),
        run_ops(a + b) == run_ops(a) + run_ops(b),
    decreases a.len(),
{
    if a.len() == 0 {
        assert(a + b =~= b);
    } else {
        lemma_count_ops_concat(a.drop_first(), b);
        assert((a + b).drop_first() =~= a.drop_first() + b);
        assert(run_ops(a + b) =~= run_ops(a) + run_ops(b));
    }
}

proof fn lemma_count_ops_short(a: Seq<BatchStep>)
    ensures
        a.len() == 0 ==> count_ops(a) == 0 && run_ops(a) == Seq::<Operation>::empty(),
        a.len() == 1 ==> count_ops(a) == (if a[0] is ExecuteOp {
            1nat
        } else {
            0nat
        }),
        a.len() == 1 ==> run_ops(a) == (match a[0] {
            BatchStep::ExecuteOp { op, .. } => seq![op],
            BatchStep::StartGroup { .. } => seq![],
        }),
{
    if a.len() == 1 {
        assert(a.drop_first() =~= Seq::<BatchStep>::empty());
        assert(count_ops(a.drop_first()) == 0);
        assert(run_ops(a.drop_first()) =~= Seq::<Operation>::empty());
        assert(run_ops(a) =~= (match a[0] {
            BatchStep::ExecuteOp { op, .. } => seq![op],
            BatchStep::StartGroup { .. } => seq![],
        }));
    }
}

proof fn lemma_skip_ops_splits(steps: Seq<BatchStep>, n: int)
    requires
        0 <= n <= count_ops(steps),
    ensures
        ({
            let rest = skip_ops(steps, n);
            let done = steps.take(steps.len() - rest.len());
            &&& rest.len() <= steps.len()
            &&& steps == done + rest
            &&& count_ops(done) == n
            &&& count_ops(rest) == count_ops(steps) - n
        }),
    decreases steps.len(),
{
    let rest = skip_ops(steps, n);
    if steps.len() == 0 {
        assert(steps.take(0) =~= steps);
        assert(steps =~= steps.take(0) + rest);
    } else if steps[0] is ExecuteOp && n <= 0 {
        assert(steps.take(0) =~= Seq::<BatchStep>::empty());
        assert(steps =~= steps.take(0) + rest);
    } else {
        let m = if steps[0] is ExecuteOp {
            n - 1
        } else {
            n
        };
        let tail = steps.drop_first();
        lemma_skip_ops_splits(tail, m);
        let done = steps.take(steps.len() - rest.len());
        assert(done.drop_first() =~= tail.take(tail.len() - rest.len()));
        assert forall|j: int| 1 <= j < steps.len() implies steps[j] == (done + rest)[j] by {
            assert(steps[j] == tail[j - 1]);
            assert((tail.take(tail.len() - rest.len()) + rest)[j - 1] == tail[j - 1]);
        }
        assert(steps =~= done + rest);
    }
}

/// Running the first `n` operations of a batch and resuming at operation `n` is running the batch:
/// the steps of a resumed batch are what the first `n` operations leave of the whole.
pub proof fn law_resuming_completes_a_batch(batch: &OpBatch, n: int)
    requires
        0 <= n <= count_ops(batch.schedule()),
    ensures
        ({
            let whole = batch.schedule();
            let rest = skip_ops(whole, n);
            let done = whole.take(whole.len() - rest.len());
            &&& whole == done + rest
            &&& count_ops(done) == n
            &&& count_ops(rest) == count_ops(whole) - n
        }),
{
    lemma_skip_ops_splits(batch.schedule(), n);
}

/// A batch can be interrupted more than once: resuming `n` operations into a batch that was resumed
/// at operation `m` is resuming it at operation `m + n`.
pub proof fn law_resuming_composes(steps: Seq<BatchStep>, m: int, n: int)
    requires
        0 <= m,
        0 <= n,
    ensures
        skip_ops(skip_ops(steps, m), n) == skip_ops(steps, m + n),
    decreases steps.len(),
{
    if steps.len() > 0 {
        if steps[0] is ExecuteOp && m <= 0 {
        } else if steps[0] is ExecuteOp {
            law_resuming_composes(steps.drop_first(), m - 1, n);
        } else {
            law_resuming_composes(steps.drop_first(), m, n);
        }
    }
}

proof fn lemma_op_steps_run(batch: &OpBatch, i: int)
    requires
        0 <= i < batch.ops@.len(),
    ensures
        count_ops(batch.op_steps(i)) == batch.op_positions(i).len(),
        run_ops(batch.op_steps(i)) == (if batch.inserts_noop(i) {
            seq![batch.ops@[i], Operation::Noop]
        } else {
            seq![batch.ops@[i]]
        }),
{
    let at = batch.cursor(i);
    let run = seq![
        BatchStep::ExecuteOp { op: batch.ops@[i], op_idx_in_group: at.op_in_group as usize },
    ];
    lemma_count_ops_short(run);
    if batch.closes_group(at) {
        let noop = seq![
            BatchStep::ExecuteOp {
                op: Operation::Noop,
                op_idx_in_group: (at.op_in_group + 1) as usize,
            },
        ];
        let none = Seq::<BatchStep>::empty();
        let start = seq![BatchStep::StartGroup { group: batch.groups@[batch.cursor(i + 1).group] }];
        lemma_count_ops_short(noop);
        lemma_count_ops_short(none);
        lemma_count_ops_short(start);
        lemma_count_ops_concat(run, noop);
        lemma_count_ops_concat(run, none);
        lemma_count_ops_concat(run + noop, start);
        lemma_count_ops_concat(run + noop, none);
        lemma_count_ops_concat(run + none, start);
        lemma_count_ops_concat(run + none, none);
        assert(run_ops(batch.op_steps(i)) =~= (if batch.inserts_noop(i) {
            seq![batch.ops@[i], Operation::Noop]
        } else {
            seq![batch.ops@[i]]
        }));
    }
}

proof fn lemma_steps_before_run(batch: &OpBatch, n: int)
    requires
        0 <= n <= batch.ops@.len(),
    ensures
        run_ops(batch.steps_before(n)).len() == batch.positions_before(n).len(),
        count_ops(batch.steps_before(n)) == batch.positions_before(n).len(),
        forall|i: int|
            0 <= i < n ==> {
                let k = #[trigger] batch.positions_before(i).len() as int;
                let ran = run_ops(batch.steps_before(n));
                &&& k < ran.len()
                &&& ran[k] == batch.ops@[i]
                &&& batch.inserts_noop(i) ==> k + 1 < ran.len() && ran[k + 1] == Operation::Noop
            },
    decreases n,
{
    if n > 0 {
        lemma_steps_before_run(batch, n - 1);
        lemma_op_steps_run(batch, n - 1);
        lemma_count_ops_concat(batch.steps_before(n - 1), batch.op_steps(n - 1));
    }
}

proof fn lemma_padding_run(batch: &OpBatch, first: int, g: int)
    ensures
        count_ops(batch.padding_before(first, g)) == batch.padding_positions(first, g).len(),
        run_ops(batch.padding_before(first, g)).len() == batch.padding_positions(first, g).len(),
        forall|k: int|
            0 <= k < run_ops(batch.padding_before(first, g)).len() ==> #[trigger] run_ops(
                batch.padding_before(first, g),
            )[k] == Operation::Noop,
    decreases g - first,
{
    if g > first {
        lemma_padding_run(batch, first, g - 1);
        let run = seq![BatchStep::ExecuteOp { op: Operation::Noop, op_idx_in_group: 0usize }];
        let start = seq![BatchStep::StartGroup { group: felt(0) }];
        lemma_count_ops_short(run);
        lemma_count_ops_short(start);
        lemma_count_ops_concat(run, start);
        assert(run + start =~= run.push(BatchStep::StartGroup { group: felt(0) }));
        lemma_count_ops_concat(batch.padding_before(first, g - 1), batch.padding_steps(g - 1));
    }
}

/// Every operation of a batch runs, in order, and nothing but NOOPs runs besides: the operation
/// with index `i` runs after what runs for the operations before it, the NOOP that it needs runs
/// right after it, and all that runs once the operations are exhausted are padding NOOPs.
pub proof fn law_batch_runs_its_operations(batch: &OpBatch)
    ensures
        ({
            let n = batch.ops@.len() as int;
            let ran = run_ops(batch.schedule());
            &&& ran.len() == batch.runtime_positions().len()
            &&& ran.len() == count_ops(batch.schedule())
            &&& forall|i: int|
                0 <= i < n ==> {
                    let k = #[trigger] batch.positions_before(i).len() as int;
                    &&& k < ran.len()
                    &&& ran[k] == batch.ops@[i]
                    &&& batch.inserts_noop(i) ==> k + 1 < ran.len() && ran[k + 1] == Operation::Noop
                }
            &&& forall|k: int|
                batch.positions_before(n).len() <= k < ran.len() ==> #[trigger] ran[k]
                    == Operation::Noop
        }),
{
    let n = batch.ops@.len() as int;
    let first = batch.cursor(n).group;
    lemma_steps_before_run(batch, n);
    lemma_padding_run(batch, first, batch.rounded_groups());
    lemma_count_ops_concat(
        batch.steps_before(n),
        batch.padding_before(first, batch.rounded_groups()),
    );
}

proof fn lemma_run_indices_concat(a: Seq<BatchStep>, b: Seq<BatchStep>)
    ensures
        run_indices(a + b) == run_indices(a) + run_indices(b),
    decreases a.len(),
{
    if a.len() == 0 {
        assert(a + b =~= b);
        assert(run_indices(a) + run_indices(b) =~= run_indices(b));
    } else {
        lemma_run_indices_concat(a.drop_first(), b);
        assert((a + b).drop_first() =~= a.drop_first() + b);
        assert(run_indices(a + b) =~= run_indices(a) + run_indices(b));
    }
}

proof fn lemma_run_indices_short(a: Seq<BatchStep>)
    ensures
        a.len() == 0 ==> run_indices(a) == Seq::<usize>::empty(),
        a.len() == 1 ==> run_indices(a) == (match a[0] {
            BatchStep::ExecuteOp { op_idx_in_group, .. } => seq![op_idx_in_group],
            BatchStep::StartGroup { .. } => seq![],
        }),
{
    if a.len() == 1 {
        assert(a.drop_first() =~= Seq::<BatchStep>::empty());
        assert(run_indices(a.drop_first()) =~= Seq::<usize>::empty());
        assert(run_indices(a) =~= (match a[0] {
            BatchStep::ExecuteOp { op_idx_in_group, .. } => seq![op_idx_in_group],
            BatchStep::StartGroup { .. } => seq![],
        }));
    }
}

proof fn lemma_op_steps_indices(batch: &OpBatch, i: int)
    requires
        batch.wf(),
        0 <= i < batch.ops@.len(),
    ensures
        run_indices(batch.op_steps(i)).len() == batch.op_positions(i).len(),
        forall|k: int|
            0 <= k < batch.op_positions(i).len() ==> #[trigger] run_indices(batch.op_steps(i))[k]
                == batch.op_positions(i)[k].1,
{
    let at = batch.cursor(i);
    lemma_cursor_in_group(batch, i);
    let run = seq![
        BatchStep::ExecuteOp { op: batch.ops@[i], op_idx_in_group: at.op_in_group as usize },
    ];
    lemma_run_indices_short(run);
    if batch.closes_group(at) {
        let noop = seq![
            BatchStep::ExecuteOp {
                op: Operation::Noop,
                op_idx_in_group: (at.op_in_group + 1) as usize,
            },
        ];
        let none = Seq::<BatchStep>::empty();
        let start = seq![BatchStep::StartGroup { group: batch.groups@[batch.cursor(i + 1).group] }];
        lemma_run_indices_short(noop);
        lemma_run_indices_short(none);
        lemma_run_indices_short(start);
        lemma_run_indices_concat(run, noop);
        lemma_run_indices_concat(run, none);
        lemma_run_indices_concat(run + noop, start);
        lemma_run_indices_concat(run + noop, none);
        lemma_run_indices_concat(run + none, start);
        lemma_run_indices_concat(run + none, none);
    }
}

proof fn lemma_steps_before_indices(batch: &OpBatch, n: int)
    requires
        batch.wf(),
        0 <= n <= batch.ops@.len(),
    ensures
        run_indices(batch.steps_before(n)).len() == batch.positions_before(n).len(),
        forall|k: int|
            0 <= k < batch.positions_before(n).len() ==> #[trigger] run_indices(
                batch.steps_before(n),
            )[k] == batch.positions_before(n)[k].1,
    decreases n,
{
    if n > 0 {
        lemma_steps_before_indices(batch, n - 1);
        lemma_op_steps_indices(batch, n - 1);
        lemma_run_indices_concat(batch.steps_before(n - 1), batch.op_steps(n - 1));
    }
}

proof fn lemma_padding_indices(batch: &OpBatch, first: int, g: int)
    ensures
        run_indices(batch.padding_before(first, g)).len() == batch.padding_positions(
            first,
            g,
        ).len(),
        forall|k: int|
            0 <= k < run_indices(batch.padding_before(first, g)).len() ==> #[trigger] run_indices(
                batch.padding_before(first, g),
            )[k] == 0,
    decreases g - first,
{
    if g > first {
        lemma_padding_indices(batch, first, g - 1);
        let run = seq![BatchStep::ExecuteOp { op: Operation::Noop, op_idx_in_group: 0usize }];
        let start = seq![BatchStep::StartGroup { group: felt(0) }];
        lemma_run_indices_short(run);
        lemma_run_indices_short(start);
        lemma_run_indices_concat(run, start);
        assert(run + start =~= run.push(BatchStep::StartGroup { group: felt(0) }));
        lemma_run_indices_concat(batch.padding_before(first, g - 1), batch.padding_steps(g - 1));
    }
}

/// Positions agree with the schedule: whatever runs, inserted NOOPs and padding included, runs with
/// the index within its group that its position says.
pub proof fn law_positions_are_those_of_the_schedule(batch: &OpBatch)
    requires
        batch.wf(),
    ensures
        run_indices(batch.schedule()).len() == batch.runtime_positions().len(),
        forall|k: int|
            0 <= k < batch.runtime_positions().len() ==> #[trigger] run_indices(
                batch.schedule(),
            )[k] == batch.runtime_positions()[k].1,
{
    let n = batch.ops@.len() as int;
    let first = batch.cursor(n).group;
    lemma_steps_before_indices(batch, n);
    lemma_padding_indices(batch, first, batch.rounded_groups());
    lemma_run_indices_concat(
        batch.steps_before(n),
        batch.padding_before(first, batch.rounded_groups()),
    );
}

} // verus!
