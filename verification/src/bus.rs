//! Shared atomic cells, and the trace of a context's accesses to them.
//!
//! Other contexts may write a cell between two accesses, so nothing is known
//! of what a cell holds. What a context did is known: every access goes
//! through its [`Bus`], which keeps a ghost trace of them, in order, with the
//! values that came back. Only the methods here reach a cell, and only they
//! write the trace.

use portable_atomic::{AtomicBool, AtomicU16, AtomicU32, AtomicU8, Ordering};
use vstd::prelude::*;

verus! {

/// A shared flag: `portable_atomic::AtomicBool`.
#[verifier::external_type_specification]
#[verifier::external_body]
pub struct ExAtomicBool(AtomicBool);

/// A shared byte: `portable_atomic::AtomicU8`.
#[verifier::external_type_specification]
#[verifier::external_body]
pub struct ExAtomicU8(AtomicU8);

/// A shared half word: `portable_atomic::AtomicU16`.
#[verifier::external_type_specification]
#[verifier::external_body]
pub struct ExAtomicU16(AtomicU16);

/// A shared word: `portable_atomic::AtomicU32`.
#[verifier::external_type_specification]
#[verifier::external_body]
pub struct ExAtomicU32(AtomicU32);

/// One access to a shared cell, with the value that came back. A cell is
/// known by its identity.
pub ghost enum Access {
    /// Flag read.
    LoadBool(AtomicBool, bool),
    /// Flag written.
    StoreBool(AtomicBool, bool),
    /// Byte read.
    LoadU8(AtomicU8, u8),
    /// Byte written.
    StoreU8(AtomicU8, u8),
    /// Byte added to: the addend, and the value before.
    AddU8(AtomicU8, u8, u8),
    /// Byte inverted in some bits: the bits, and the value before.
    XorU8(AtomicU8, u8, u8),
    /// Half word read.
    LoadU16(AtomicU16, u16),
    /// Half word written.
    StoreU16(AtomicU16, u16),
    /// Half word replaced: the new value, and the one before.
    SwapU16(AtomicU16, u16, u16),
    /// Word read.
    LoadU32(AtomicU32, u32),
    /// Word written.
    StoreU32(AtomicU32, u32),
    /// Word added to: the addend, and the value before.
    AddU32(AtomicU32, u32, u32),
    /// Word replaced if it held a value: that value, the new one, and the
    /// one found.
    ExchangeU32(AtomicU32, u32, u32, u32),
}

/// A context of execution: the main loop, or an interrupt. The firmware
/// implements it for its own contexts; nothing here does, so the functions of
/// this crate reach cells only over a bus that they were given.
pub trait Context {

}

/// A context's way to the shared cells. It keeps the trace of the context's
/// accesses.
pub struct Bus {
    trace: Ghost<Seq<Access>>,
}

impl Bus {
    /// The accesses so far.
    pub closed spec fn view(&self) -> Seq<Access> {
        self.trace@
    }

    /// The bus of a context, without accesses.
    pub fn new<C: Context>(_context: &C) -> (r: Self)
        ensures
            r@ == Seq::<Access>::empty(),
    {
        Self { trace: Ghost(Seq::empty()) }
    }

    /// `AtomicBool::load`: joins the trace with the value that came back. Of
    /// that value nothing is claimed, since any context may have written it.
    #[verifier::external_body]
    pub(crate) fn load_bool(&mut self, cell: &AtomicBool) -> (r: bool)
        ensures
            final(self)@ == old(self)@.push(Access::LoadBool(*cell, r)),
    {
        cell.load(Ordering::Relaxed)
    }

    /// `AtomicBool::store`: the cell takes `val`, and the write joins the
    /// trace. What the cell holds later is not claimed.
    #[verifier::external_body]
    pub(crate) fn store_bool(&mut self, cell: &AtomicBool, val: bool)
        ensures
            final(self)@ == old(self)@.push(Access::StoreBool(*cell, val)),
    {
        cell.store(val, Ordering::Relaxed)
    }

    /// `AtomicU8::load`: joins the trace with the value that came back. Of
    /// that value nothing is claimed, since any context may have written it.
    #[verifier::external_body]
    pub(crate) fn load_u8(&mut self, cell: &AtomicU8) -> (r: u8)
        ensures
            final(self)@ == old(self)@.push(Access::LoadU8(*cell, r)),
    {
        cell.load(Ordering::Relaxed)
    }

    /// `AtomicU8::store`: the cell takes `val`, and the write joins the
    /// trace. What the cell holds later is not claimed.
    #[verifier::external_body]
    pub(crate) fn store_u8(&mut self, cell: &AtomicU8, val: u8)
        ensures
            final(self)@ == old(self)@.push(Access::StoreU8(*cell, val)),
    {
        cell.store(val, Ordering::Relaxed)
    }

    /// `AtomicU16::load`: joins the trace with the value that came back. Of
    /// that value nothing is claimed, since any context may have written it.
    #[verifier::external_body]
    pub(crate) fn load_u16(&mut self, cell: &AtomicU16) -> (r: u16)
        ensures
            final(self)@ == old(self)@.push(Access::LoadU16(*cell, r)),
    {
        cell.load(Ordering::Relaxed)
    }

    /// `AtomicU16::store`: the cell takes `val`, and the write joins the
    /// trace. What the cell holds later is not claimed.
    #[verifier::external_body]
    pub(crate) fn store_u16(&mut self, cell: &AtomicU16, val: u16)
        ensures
            final(self)@ == old(self)@.push(Access::StoreU16(*cell, val)),
    {
        cell.store(val, Ordering::Relaxed)
    }

    /// `AtomicU32::load`: joins the trace with the value that came back. Of
    /// that value nothing is claimed, since any context may have written it.
    #[verifier::external_body]
    pub(crate) fn load_u32(&mut self, cell: &AtomicU32) -> (r: u32)
        ensures
            final(self)@ == old(self)@.push(Access::LoadU32(*cell, r)),
    {
        cell.load(Ordering::Relaxed)
    }

    /// `AtomicU32::store`: the cell takes `val`, and the write joins the
    /// trace. What the cell holds later is not claimed.
    #[verifier::external_body]
    pub(crate) fn store_u32(&mut self, cell: &AtomicU32, val: u32)
        ensures
            final(self)@ == old(self)@.push(Access::StoreU32(*cell, val)),
    {
        cell.store(val, Ordering::Relaxed)
    }

    /// `AtomicU8::fetch_add`: adds `val` in one step, wrapping around.
    /// It joins the trace with the value before, which is what comes back
    /// and of which nothing is claimed.
    #[verifier::external_body]
    pub(crate) fn fetch_add_u8(&mut self, cell: &AtomicU8, val: u8) -> (r: u8)
        ensures
            final(self)@ == old(self)@.push(Access::AddU8(*cell, val, r)),
    {
        cell.fetch_add(val, Ordering::Relaxed)
    }

    /// `AtomicU8::fetch_xor`: inverts the bits of `val` in one step.
    /// It joins the trace with the value before, which is what comes back
    /// and of which nothing is claimed.
    #[verifier::external_body]
    pub(crate) fn fetch_xor_u8(&mut self, cell: &AtomicU8, val: u8) -> (r: u8)
        ensures
            final(self)@ == old(self)@.push(Access::XorU8(*cell, val, r)),
    {
        cell.fetch_xor(val, Ordering::Relaxed)
    }

    /// `AtomicU16::swap`: the cell takes `val` in one step.
    /// It joins the trace with the value before, which is what comes back
    /// and of which nothing is claimed.
    #[verifier::external_body]
    pub(crate) fn swap_u16(&mut self, cell: &AtomicU16, val: u16) -> (r: u16)
        ensures
            final(self)@ == old(self)@.push(Access::SwapU16(*cell, val, r)),
    {
        cell.swap(val, Ordering::Relaxed)
    }

    /// `AtomicU32::fetch_add`: adds `val` in one step, wrapping around.
    /// It joins the trace with the value before, which is what comes back
    /// and of which nothing is claimed.
    #[verifier::external_body]
    pub(crate) fn fetch_add_u32(&mut self, cell: &AtomicU32, val: u32) -> (r: u32)
        ensures
            final(self)@ == old(self)@.push(Access::AddU32(*cell, val, r)),
    {
        cell.fetch_add(val, Ordering::Relaxed)
    }

    /// `AtomicU32::compare_exchange`: in one step, the cell takes `new` if it
    /// held `current`. It joins the trace with the value found, which comes
    /// back either way: in `Ok` exactly when it was `current`, so that `new`
    /// was written. What is found depends on the other contexts.
    #[verifier::external_body]
    pub(crate) fn compare_exchange_u32(&mut self, cell: &AtomicU32, current: u32, new: u32) -> (r:
        Result<u32, u32>)
        ensures
            ({
                let found = match r {
                    Ok(before) => before,
                    Err(before) => before,
                };
                &&& final(self)@ == old(self)@.push(Access::ExchangeU32(*cell, current, new, found))
                &&& r is Ok <==> found == current
            }),
    {
        cell.compare_exchange(current, new, Ordering::Relaxed, Ordering::Relaxed)
    }
}

} // verus!
