//! The [`RegisterInfo`] trait and the static per-register metadata table.
use vstd::prelude::*;

verus! {

/// The specification-level model of a register descriptor.
pub struct InfoModel<R> {
    /// The displayed name, as bytes.
    pub name: Seq<u8>,
    /// The register itself.
    pub register: R,
    /// The base register of the register's set.
    pub base: R,
    /// The full register of the register, if it has one.
    pub full_register: Option<R>,
    /// The size **in bytes** of the register.
    pub size: u16,
}

/// A trait which is required for each register in the target architecture to
/// implement.
pub trait RegisterInfo: Sized + Copy + Send + 'static {
    /// The numeric identity of the register, at the specification level.
    /// An implementation that is not verified may leave the default model.
    open spec fn value_spec(&self) -> u64 {
        0
    }

    /// The descriptor of the register, at the specification level. An
    /// implementation that is not verified may leave the default model.
    open spec fn info_spec(&self) -> InfoModel<Self> {
        InfoModel {
            name: Seq::empty(),
            register: *self,
            base: *self,
            full_register: None,
            size: 0,
        }
    }

    /// The architecture's register table, at the specification level. An
    /// implementation that is not verified may leave the default model.
    open spec fn table_spec() -> Seq<InfoModel<Self>> {
        Seq::empty()
    }

    /// Returns the numeric identity of the register, as it is stored in the
    /// trace.
    fn value(&self) -> (r: u64)
        ensures
            r == self.value_spec(),
    ;

    /// Returns the unique [`Info`] for the given register.
    fn info(&self) -> (r: Info<Self>)
        ensures
            r@ == self.info_spec(),
    ;

    /// Provides the registers in the architecture, in register-table order.
    fn iter() -> (r: Vec<Self>)
        ensures
            r@.len() == Self::table_spec().len(),
            forall|j: int|
                0 <= j < r@.len() ==> #[trigger] r@[j].info_spec() == Self::table_spec()[j],
    ;
}

/// All information needed for a single register in the target architecture.
pub struct Info<R> {
    /// The name which you want to be displayed in an interface.
    pub name: Vec<u8>,
    /// The register's individual identity.
    pub register: R,
    /// The base register of the register's set.
    pub base: R,
    /// The full register of the register, if it has one.
    pub full_register: Option<R>,
    /// The size **in bytes** of a register.
    pub size: u16,
}

impl<R> View for Info<R> {
    type V = InfoModel<R>;

    open spec fn view(&self) -> InfoModel<R> {
        InfoModel {
            name: self.name@,
            register: self.register,
            base: self.base,
            full_register: self.full_register,
            size: self.size,
        }
    }
}

impl<R> Info<R> {
    /// Creates a new instance.
    pub fn new(name: Vec<u8>, register: R, base: R, full_register: Option<R>, size: u16) -> (r:
        Self)
        ensures
            r@ == (InfoModel { name: name@, register, base, full_register, size }),
    {
        Info { name, register, base, full_register, size }
    }
}

} // verus!
