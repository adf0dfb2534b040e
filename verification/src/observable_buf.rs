//! A byte sink whose length can be watched from elsewhere while a writer
//! holds the sink.

use vstd::prelude::*;
use std::sync::Arc;
use std::sync::atomic::AtomicUsize;
use std::sync::atomic::Ordering;

verus! {

/// `std::io::Error`: what a writer fails with. The writers of this library
/// never fail.
#[verifier::external_type_specification]
#[verifier::external_body]
pub struct ExIoError(std::io::Error);

/// Another handle on the same counter, through `Arc::clone`.
#[verifier::external_body]
fn share_counter(counter: &Arc<AtomicUsize>) -> (shared: Arc<AtomicUsize>)
    ensures
        shared == *counter,
{
    counter.clone()
}

/// A vector of bytes that is written to, and a counter that is set to the
/// vector's length after every write.
pub struct ObservableBuf<'a> {
    pub inner: &'a mut Vec<u8>,
    pub len: Arc<AtomicUsize>,
}

impl<'a> ObservableBuf<'a> {
    /// Wraps `inner`, and hands out a second handle on the counter, which
    /// starts at the length that `inner` has now.
    pub fn new(inner: &'a mut Vec<u8>) -> (made: (Self, Arc<AtomicUsize>))
        ensures
            *made.0.inner == *old(inner),
            *final(inner) == *final(made.0.inner),
            made.1 == made.0.len,
    {
        let len = Arc::new(AtomicUsize::new(inner.len()));
        let shared = share_counter(&len);
        (Self { inner, len: shared }, len)
    }
}

impl<'a> std::io::Write for ObservableBuf<'a> {
    /// Appends all of `buf` and sets the counter to the new length.
    fn write(&mut self, buf: &[u8]) -> (written: std::io::Result<usize>)
        ensures
            final(self).inner@ == old(self).inner@ + buf@,
            written matches Ok(n) && n == buf@.len(),
    {
        self.inner.extend_from_slice(buf);
        self.len.store(self.inner.len(), Ordering::SeqCst);
        Ok(buf.len())
    }

    /// Nothing is held back, so there is nothing to flush.
    fn flush(&mut self) -> (flushed: std::io::Result<()>)
        ensures
            final(self).inner@ == old(self).inner@,
            flushed is Ok,
    {
        Ok(())
    }
}

} // verus!
