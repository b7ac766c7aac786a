//! What lowering decides before anything is handed to the code generator:
//! the machine types that the primitive types of the language stand for.
use vstd::prelude::*;
use crate::semantic::types::{Int, Primitive};

verus! {

/// The type of the code generator that a primitive type is lowered to.
#[derive(Debug, Clone, Copy, PartialEq, Eq, Structural)]
pub enum MachineType {
    /// An integer of the given width.
    Int(usize),
    /// A single-precision number.
    Float,
    /// A double-precision number.
    Double,
    /// A byte.
    Byte,
}

/// The size of a machine word.
#[inline]
pub fn word_size() -> (n: usize)
    ensures
        n == vstd::layout::size_of::<isize>(),
{
    core::mem::size_of::<isize>()
}

/// The machine type that a primitive type stands for, where it has one.
///
/// The pointer-sized integers are integers of the given width; the sized
/// integers are integers of their own width, signed or not.
pub open spec fn machine_type_of(p: Primitive, word: usize) -> Option<MachineType> {
    match p {
        Primitive::IntSize => Some(MachineType::Int(word)),
        Primitive::UintSize => Some(MachineType::Int(word)),
        Primitive::Int(bits) => Some(MachineType::Int(bits.width() as usize)),
        Primitive::Uint(bits) => Some(MachineType::Int(bits.width() as usize)),
        Primitive::Float => Some(MachineType::Float),
        Primitive::Double => Some(MachineType::Double),
        Primitive::Byte => Some(MachineType::Byte),
        _ => None,
    }
}

impl Primitive {
    /// The machine type that the primitive type is lowered to, given the
    /// width of the pointer-sized integers. Characters, strings and truth
    /// values have none yet.
    pub fn machine_type(&self, word: usize) -> (r: Option<MachineType>)
        ensures
            r == machine_type_of(*self, word),
    {
        match self {
            Primitive::IntSize => Some(MachineType::Int(word)),
            Primitive::UintSize => Some(MachineType::Int(word)),
            Primitive::Int(bits) => Some(MachineType::Int(bits.bits())),
            Primitive::Uint(bits) => Some(MachineType::Int(bits.bits())),
            Primitive::Float => Some(MachineType::Float),
            Primitive::Double => Some(MachineType::Double),
            Primitive::Byte => Some(MachineType::Byte),
            _ => None,
        }
    }
}

} // verus!
