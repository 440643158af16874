use vstd::prelude::*;
use vstd::std_specs::cmp::PartialEqSpec;

verus! {

/// Name of a variable of the constraint system (such as "x" or "y").
pub type VarId = String;

/// Index of a node inside the arena of an [`Ast`].
pub type NodeId = usize;

/// The mathematical operation carried by an operator node.
#[derive(Debug, Clone, Copy, PartialEq, Eq, Structural)]
pub enum OpType {
    Add,
    Sub,
    Mul,
    Div,
    Sqr,
    Sqrt,
    Sin,
    Exp,
    Cos,
}

/// A binary64 floating-point value held as its IEEE-754 bit pattern.
///
/// `==` follows IEEE-754 equality: a NaN equals nothing (itself included),
/// and positive and negative zero are equal.
#[derive(Debug, Clone, Copy)]
pub struct FloatBits {
    pub bits: u64,
}

/// Mask of the exponent field of a binary64 bit pattern.
pub const EXPONENT_MASK: u64 = 0x7ff0_0000_0000_0000;

/// Mask of the significand field of a binary64 bit pattern.
pub const SIGNIFICAND_MASK: u64 = 0x000f_ffff_ffff_ffff;

/// Mask of everything but the sign bit of a binary64 bit pattern.
pub const MAGNITUDE_MASK: u64 = 0x7fff_ffff_ffff_ffff;

impl FloatBits {
    /// The value is a NaN: all exponent bits set and a non-zero significand.
    pub open spec fn is_nan(self) -> bool {
        (self.bits & EXPONENT_MASK) == EXPONENT_MASK && (self.bits & SIGNIFICAND_MASK) != 0
    }

    /// The value is positive or negative zero.
    pub open spec fn is_zero(self) -> bool {
        (self.bits & MAGNITUDE_MASK) == 0
    }

    /// IEEE-754 equality of the two values.
    pub open spec fn ieee_eq(self, other: Self) -> bool {
        !self.is_nan() && !other.is_nan() && (self.bits == other.bits || (self.is_zero()
            && other.is_zero()))
    }
}

impl PartialEq for FloatBits {
    fn eq(&self, other: &Self) -> (r: bool) {
        let self_nan = (self.bits & EXPONENT_MASK) == EXPONENT_MASK && (self.bits
            & SIGNIFICAND_MASK) != 0;
        let other_nan = (other.bits & EXPONENT_MASK) == EXPONENT_MASK && (other.bits
            & SIGNIFICAND_MASK) != 0;
        let both_zero = (self.bits & MAGNITUDE_MASK) == 0 && (other.bits & MAGNITUDE_MASK) == 0;
        !self_nan && !other_nan && (self.bits == other.bits || both_zero)
    }
}

impl vstd::std_specs::cmp::PartialEqSpecImpl for FloatBits {
    open spec fn obeys_eq_spec() -> bool {
        true
    }

    open spec fn eq_spec(&self, other: &FloatBits) -> bool {
        self.ieee_eq(*other)
    }
}

/// Equality of constants is IEEE-754 equality on their bit patterns: two
/// values are equal only when neither is a NaN and their patterns are equal or
/// both are zeros (of either sign); a value and its negation differ unless it
/// is a zero or a NaN; every non-NaN value equals itself and all zeros are equal.
pub proof fn lemma_float_equality(a: FloatBits, b: FloatBits)
    ensures
        a.eq_spec(&b) ==> a.bits == b.bits || ((a.bits & 0x7fff_ffff_ffff_ffff) == 0 && (b.bits
            & 0x7fff_ffff_ffff_ffff) == 0),
        a.eq_spec(&b) ==> !((a.bits & 0x7ff0_0000_0000_0000) == 0x7ff0_0000_0000_0000 && (a.bits
            & 0x000f_ffff_ffff_ffff) != 0),
        a.eq_spec(&b) ==> !((b.bits & 0x7ff0_0000_0000_0000) == 0x7ff0_0000_0000_0000 && (b.bits
            & 0x000f_ffff_ffff_ffff) != 0),
        a.bits == b.bits && !((a.bits & 0x7ff0_0000_0000_0000) == 0x7ff0_0000_0000_0000 && (
        a.bits & 0x000f_ffff_ffff_ffff) != 0) ==> a.eq_spec(&b),
        (a.bits & 0x7fff_ffff_ffff_ffff) == 0 && (b.bits & 0x7fff_ffff_ffff_ffff) == 0
            ==> a.eq_spec(&b),
        b.bits == a.bits ^ 0x8000_0000_0000_0000 && (a.bits & 0x7fff_ffff_ffff_ffff) != 0
            ==> !a.eq_spec(&b),
{
    let x: u64 = a.bits;
    let y: u64 = b.bits;
    assert((x & 0x7fff_ffff_ffff_ffff) == 0 ==> (x & 0x7ff0_0000_0000_0000) != 0x7ff0_0000_0000_0000)
        by (bit_vector);
    assert((y & 0x7fff_ffff_ffff_ffff) == 0 ==> (y & 0x7ff0_0000_0000_0000) != 0x7ff0_0000_0000_0000)
        by (bit_vector);
    assert(y == x ^ 0x8000_0000_0000_0000 && (x & 0x7fff_ffff_ffff_ffff) != 0 ==> x != y && (y
        & 0x7fff_ffff_ffff_ffff) != 0) by (bit_vector);
}

/// The kind of a node of the expression tree.
#[derive(Debug, Clone, PartialEq)]
pub enum NodeKind {
    /// A numeric constant, held as the bit pattern of its binary64 value.
    Constant(FloatBits),
    /// A variable, looked up by name in the current box region.
    Variable(VarId),
    /// A binary operator applied to the nodes `left` and `right`.
    Binary { op: OpType, left: NodeId, right: NodeId },
    /// A unary operator applied to the node `child`.
    Unary { op: OpType, child: NodeId },
}

/// A node of the expression tree.
#[derive(Debug, Clone)]
pub struct Node {
    pub kind: NodeKind,
}

/// Expression tree stored in an arena: every node is addressed by its index
/// in `nodes`, and operator nodes refer to their operands by index.
#[derive(Debug, Default, Clone)]
pub struct Ast {
    pub nodes: Vec<Node>,
}

impl Ast {
    /// Every operator node refers only to nodes that were added before it,
    /// which is what the builders give when they are handed existing node ids.
    pub open spec fn well_formed(&self) -> bool {
        forall|i: int|
            0 <= i < self.nodes@.len() ==> match #[trigger] self.nodes@[i].kind {
                NodeKind::Binary { left, right, .. } => left < i && right < i,
                NodeKind::Unary { child, .. } => child < i,
                _ => true,
            }
    }

    /// Every unary node refers to a node of the arena.
    pub open spec fn unary_children_in_bounds(&self) -> bool {
        forall|i: int|
            0 <= i < self.nodes@.len() ==> match #[trigger] self.nodes@[i].kind {
                NodeKind::Unary { child, .. } => child < self.nodes@.len(),
                _ => true,
            }
    }

    /// A well-formed tree has every unary node's operand inside the arena.
    pub proof fn lemma_well_formed_children_in_bounds(&self)
        requires
            self.well_formed(),
        ensures
            self.unary_children_in_bounds(),
    {
    }

    /// An empty expression tree.
    pub fn new() -> (ast: Self)
        ensures
            ast.nodes@.len() == 0,
            ast.well_formed(),
    {
        Ast { nodes: Vec::new() }
    }

    /// Appends a constant node (given by the bit pattern of its value) and returns its id.
    pub fn add_constant(&mut self, bits: u64) -> (id: usize)
        ensures
            id == old(self).nodes@.len(),
            final(self).nodes@ == old(self).nodes@.push(
                Node { kind: NodeKind::Constant(FloatBits { bits }) },
            ),
            old(self).well_formed() ==> final(self).well_formed(),
    {
        let id: usize = self.nodes.len();
        self.nodes.push(Node { kind: NodeKind::Constant(FloatBits { bits }) });
        id
    }

    /// Appends a variable node named `name` and returns its id.
    pub fn add_variable(&mut self, name: &str) -> (id: usize)
        ensures
            id == old(self).nodes@.len(),
            final(self).nodes@.len() == old(self).nodes@.len() + 1,
            final(self).nodes@.take(id as int) == old(self).nodes@,
            final(self).nodes@[id as int].kind matches NodeKind::Variable(v) && v@ == name@,
            old(self).well_formed() ==> final(self).well_formed(),
    {
        let id: usize = self.nodes.len();
        let owned = name.to_string();
        proof {
            broadcast use vstd::string::to_string_from_display_ensures_for_str;
        }
        self.nodes.push(Node { kind: NodeKind::Variable(owned) });
        assert(self.nodes@.take(id as int) =~= old(self).nodes@);
        id
    }

    /// Appends the binary operator node `op(left, right)` and returns its id.
    pub fn add_binary(&mut self, op: OpType, left: usize, right: usize) -> (id: usize)
        ensures
            id == old(self).nodes@.len(),
            final(self).nodes@ == old(self).nodes@.push(
                Node { kind: NodeKind::Binary { op, left, right } },
            ),
            old(self).well_formed() && left < id && right < id ==> final(self).well_formed(),
    {
        let id: usize = self.nodes.len();
        self.nodes.push(Node { kind: NodeKind::Binary { op, left, right } });
        id
    }

    /// Appends the unary operator node `op(child)` and returns its id.
    pub fn add_unary(&mut self, op: OpType, child: usize) -> (id: usize)
        ensures
            id == old(self).nodes@.len(),
            final(self).nodes@ == old(self).nodes@.push(Node { kind: NodeKind::Unary { op, child } }),
            old(self).well_formed() && child < id ==> final(self).well_formed(),
    {
        let id: usize = self.nodes.len();
        self.nodes.push(Node { kind: NodeKind::Unary { op, child } });
        id
    }
}

} // verus!
