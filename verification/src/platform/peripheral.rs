use vstd::prelude::*;

verus! {

/// Contract shared by backend-independent peripheral state machines.
///
/// `Update` contains every state-changing input except reads whose ABI itself
/// consumes state, such as a UART receive-data read.
pub trait Peripheral {
    type Register: Copy;

    type Update;

    type Inspection;

    type Error;

    /// Whether `update` stays within the machine limits this peripheral
    /// relies on, such as virtual time that cannot overflow.
    spec fn update_allowed(&self, update: &Self::Update) -> bool;

    fn read(&mut self, register: Self::Register) -> core::result::Result<u32, Self::Error>;

    fn update(&mut self, update: Self::Update) -> core::result::Result<(), Self::Error>
        requires
            old(self).update_allowed(&update),
    ;

    fn inspect(&self) -> Self::Inspection;
}

} // verus!
