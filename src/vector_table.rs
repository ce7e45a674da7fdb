//! The exception vector table: sixteen fixed trampoline slots, each of which
//! jumps through one cell of a runtime-mutable jump address table.
use vstd::prelude::*;

verus! {

/// Number of slots in a vector table (2 origins x 2 stacks x 4 kinds).
pub const VECTOR_SLOTS: usize = 16;

/// Where the exception was taken from, relative to the level that handles it.
#[derive(Clone, Copy, Debug, PartialEq, Eq, Structural)]
pub enum ExceptionRelativeLevel {
    Current,
    Lower,
}

/// Which stack pointer was selected when the exception was taken.
#[derive(Clone, Copy, Debug, PartialEq, Eq, Structural)]
pub enum ExceptionStack {
    Sp0,
    SpN,
}

/// The kind of exception.
#[derive(Clone, Copy, Debug, PartialEq, Eq, Structural)]
pub enum ExceptionKind {
    Sync,
    Irq,
    Fiq,
    Serr,
}

impl ExceptionRelativeLevel {
    pub open spec fn spec_offset(self) -> nat {
        match self {
            ExceptionRelativeLevel::Current => 0,
            ExceptionRelativeLevel::Lower => 8,
        }
    }

    /// Offset of this origin's group of eight slots.
    pub fn offset(self) -> (r: usize)
        ensures
            r == self.spec_offset(),
    {
        match self {
            ExceptionRelativeLevel::Current => 0,
            ExceptionRelativeLevel::Lower => 8,
        }
    }
}

impl ExceptionStack {
    pub open spec fn spec_offset(self) -> nat {
        match self {
            ExceptionStack::Sp0 => 0,
            ExceptionStack::SpN => 4,
        }
    }

    /// Offset of this stack selector's group of four slots.
    pub fn offset(self) -> (r: usize)
        ensures
            r == self.spec_offset(),
    {
        match self {
            ExceptionStack::Sp0 => 0,
            ExceptionStack::SpN => 4,
        }
    }
}

impl ExceptionKind {
    pub open spec fn spec_offset(self) -> nat {
        match self {
            ExceptionKind::Sync => 0,
            ExceptionKind::Irq => 1,
            ExceptionKind::Fiq => 2,
            ExceptionKind::Serr => 3,
        }
    }

    /// Offset of this kind within a group of four slots.
    pub fn offset(self) -> (r: usize)
        ensures
            r == self.spec_offset(),
    {
        match self {
            ExceptionKind::Sync => 0,
            ExceptionKind::Irq => 1,
            ExceptionKind::Fiq => 2,
            ExceptionKind::Serr => 3,
        }
    }
}

/// The slot that serves `(level, stack, kind)`.
pub open spec fn slot_index(
    level: ExceptionRelativeLevel,
    stack: ExceptionStack,
    kind: ExceptionKind,
) -> int {
    (level.spec_offset() + stack.spec_offset() + kind.spec_offset()) as int
}

/// Every key has a slot in the table, and the slot's kind is the key's kind.
pub proof fn lemma_slot_index_bounds(
    level: ExceptionRelativeLevel,
    stack: ExceptionStack,
    kind: ExceptionKind,
)
    ensures
        0 <= slot_index(level, stack, kind) < VECTOR_SLOTS,
        kind_of_slot(slot_index(level, stack, kind)) == kind.spec_offset(),
{
}

/// Distinct keys are served by distinct slots.
pub proof fn lemma_slot_index_injective(
    l1: ExceptionRelativeLevel,
    s1: ExceptionStack,
    k1: ExceptionKind,
    l2: ExceptionRelativeLevel,
    s2: ExceptionStack,
    k2: ExceptionKind,
)
    ensures
        slot_index(l1, s1, k1) == slot_index(l2, s2, k2) <==> (l1 == l2 && s1 == s2 && k1 == k2),
{
}

/// The kind that the slot at `i` serves.
pub open spec fn kind_of_slot(i: int) -> nat {
    (i % 4) as nat
}

/// Computes the slot that serves `(level, stack, kind)`.
pub fn handler_index(
    level: ExceptionRelativeLevel,
    stack: ExceptionStack,
    kind: ExceptionKind,
) -> (r: usize)
    ensures
        r == slot_index(level, stack, kind),
        r < VECTOR_SLOTS,
{
    level.offset() + stack.offset() + kind.offset()
}

/// The origin, stack selector and kind that the slot at `i` serves.
pub fn slot_key(i: usize) -> (r: (ExceptionRelativeLevel, ExceptionStack, ExceptionKind))
    requires
        i < VECTOR_SLOTS,
    ensures
        slot_index(r.0, r.1, r.2) == i,
{
    let level = if i >= 8 {
        ExceptionRelativeLevel::Lower
    } else {
        ExceptionRelativeLevel::Current
    };
    let stack = if i % 8 >= 4 {
        ExceptionStack::SpN
    } else {
        ExceptionStack::Sp0
    };
    let kind = if i % 4 == 0 {
        ExceptionKind::Sync
    } else if i % 4 == 1 {
        ExceptionKind::Irq
    } else if i % 4 == 2 {
        ExceptionKind::Fiq
    } else {
        ExceptionKind::Serr
    };
    (level, stack, kind)
}

/// The jump address table of a vector table: one handler address per slot.
///
/// The trampoline of slot `i` loads cell `i` and branches to it, so writing a
/// cell is all it takes to route that kind of exception to another handler.
pub struct VectorTable {
    handlers: [u64; 16],
}

impl View for VectorTable {
    type V = Seq<u64>;

    closed spec fn view(&self) -> Seq<u64> {
        self.handlers@
    }
}

/// A vector table has exactly one cell per slot.
pub proof fn lemma_table_len(t: &VectorTable)
    ensures
        t@.len() == VECTOR_SLOTS,
{
}

/// Writing the cell of one key and then reading the cell of any key yields
/// the written handler for that same key, and the prior value for every other.
pub proof fn lemma_set_then_get(
    before: VectorTable,
    after: VectorTable,
    level: ExceptionRelativeLevel,
    stack: ExceptionStack,
    kind: ExceptionKind,
    handler: u64,
    read_level: ExceptionRelativeLevel,
    read_stack: ExceptionStack,
    read_kind: ExceptionKind,
)
    requires
        after@ == before@.update(slot_index(level, stack, kind), handler),
    ensures
        after@[slot_index(read_level, read_stack, read_kind)] == if read_level == level
            && read_stack == stack && read_kind == kind {
            handler
        } else {
            before@[slot_index(read_level, read_stack, read_kind)]
        },
{
    lemma_table_len(&before);
    lemma_slot_index_bounds(level, stack, kind);
    lemma_slot_index_bounds(read_level, read_stack, read_kind);
    lemma_slot_index_injective(level, stack, kind, read_level, read_stack, read_kind);
}

impl VectorTable {
    /// A table whose cells all hold address zero, as it is linked.
    pub fn new() -> (r: VectorTable)
        ensures
            r@ == Seq::new(VECTOR_SLOTS as nat, |i: int| 0u64),
    {
        let r = VectorTable { handlers: [0u64; 16] };
        assert(r@ =~= Seq::new(VECTOR_SLOTS as nat, |i: int| 0u64));
        r
    }

    /// Overwrites the cell of `(level, stack, kind)` and no other.
    pub fn set_handler(
        &mut self,
        level: ExceptionRelativeLevel,
        stack: ExceptionStack,
        kind: ExceptionKind,
        handler: u64,
    )
        ensures
            final(self)@ == old(self)@.update(slot_index(level, stack, kind), handler),
    {
        let index = handler_index(level, stack, kind);
        self.handlers[index] = handler;
    }

    /// The address held in the cell of `(level, stack, kind)`.
    pub fn get_handler(
        &self,
        level: ExceptionRelativeLevel,
        stack: ExceptionStack,
        kind: ExceptionKind,
    ) -> (r: u64)
        ensures
            r == self@[slot_index(level, stack, kind)],
    {
        let index = handler_index(level, stack, kind);
        self.handlers[index]
    }

    /// Overwrites the cells of `kind` for both origins and both stack
    /// selectors; the cells of other kinds keep their value.
    pub fn set_kind_handler(&mut self, kind: ExceptionKind, handler: u64)
        ensures
            final(self)@.len() == VECTOR_SLOTS,
            forall|l: ExceptionRelativeLevel, s: ExceptionStack, k: ExceptionKind|
                #[trigger] final(self)@[slot_index(l, s, k)] == if k == kind {
                    handler
                } else {
                    old(self)@[slot_index(l, s, k)]
                },
    {
        proof {
            lemma_table_len(old(self));
        }
        let ghost before = self@;
        let mut group: usize = 0;
        while group < 4
            invariant
                group <= 4,
                self@.len() == VECTOR_SLOTS,
                forall|i: int|
                    0 <= i < VECTOR_SLOTS ==> #[trigger] self@[i] == if kind_of_slot(i)
                        == kind.spec_offset() && i < 4 * group {
                        handler
                    } else {
                        before[i]
                    },
            decreases 4 - group,
        {
            let (level, stack, _) = slot_key(4 * group);
            self.set_handler(level, stack, kind, handler);
            group = group + 1;
        }
        assert forall|l: ExceptionRelativeLevel, s: ExceptionStack, k: ExceptionKind|
            #[trigger] self@[slot_index(l, s, k)] == if k == kind {
                handler
            } else {
                before[slot_index(l, s, k)]
            } by {
            lemma_slot_index_bounds(l, s, k);
        }
    }

    /// Overwrites every cell with `handler`.
    pub fn set_default_handler(&mut self, handler: u64)
        ensures
            final(self)@ == Seq::new(VECTOR_SLOTS as nat, |i: int| handler),
    {
        let mut i: usize = 0;
        while i < VECTOR_SLOTS
            invariant
                i <= VECTOR_SLOTS,
                self@.len() == VECTOR_SLOTS,
                forall|j: int| 0 <= j < i ==> #[trigger] self@[j] == handler,
            decreases VECTOR_SLOTS - i,
        {
            let (level, stack, kind) = slot_key(i);
            self.set_handler(level, stack, kind, handler);
            i = i + 1;
        }
        assert(self@ =~= Seq::new(VECTOR_SLOTS as nat, |i: int| handler));
    }
}

/// Routes every exception to `default_handler`, but synchronous exceptions,
/// which go to `sync_handler`, whatever their origin and stack.
pub fn setup_interrupts(table: &mut VectorTable, default_handler: u64, sync_handler: u64)
    ensures
        final(table)@.len() == VECTOR_SLOTS,
        forall|l: ExceptionRelativeLevel, s: ExceptionStack, k: ExceptionKind|
            #[trigger] final(table)@[slot_index(l, s, k)] == if k == ExceptionKind::Sync {
                sync_handler
            } else {
                default_handler
            },
{
    table.set_default_handler(default_handler);
    table.set_kind_handler(ExceptionKind::Sync, sync_handler);
    assert forall|l: ExceptionRelativeLevel, s: ExceptionStack, k: ExceptionKind|
        #[trigger] table@[slot_index(l, s, k)] == if k == ExceptionKind::Sync {
            sync_handler
        } else {
            default_handler
        } by {
        lemma_slot_index_bounds(l, s, k);
    }
}

} // verus!
