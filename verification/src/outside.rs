//! What the library takes from other crates, and what it holds to be true of it.
use tokio::io::ReadBuf;
use vstd::prelude::*;

verus! {

/// `tokio::io::ReadBuf`: a buffer that is filled from its front.
#[verifier::external_type_specification]
#[verifier::external_body]
pub struct ExReadBuf<'a>(tokio::io::ReadBuf<'a>);

/// What has been filled into a `ReadBuf`.
pub uninterp spec fn read_buf_filled(buf: ReadBuf<'_>) -> Seq<u8>;

/// How many bytes a `ReadBuf` has room for in all.
pub uninterp spec fn read_buf_capacity(buf: ReadBuf<'_>) -> nat;

/// Calls `ReadBuf::remaining`: it returns how many bytes of the buffer's capacity are not filled.
#[verifier::external_body]
pub(crate) fn read_buf_remaining(buf: &ReadBuf<'_>) -> (r: usize)
    ensures
        r + read_buf_filled(*buf).len() == read_buf_capacity(*buf),
{
    buf.remaining()
}

/// Calls `ReadBuf::put_slice`: it puts `data` behind what is filled already, and leaves the
/// capacity as it is. It panics where there is no room for all of `data`, which is left out.
#[verifier::external_body]
pub(crate) fn read_buf_put_slice(buf: &mut ReadBuf<'_>, data: &[u8])
    requires
        read_buf_filled(*old(buf)).len() + data@.len() <= read_buf_capacity(*old(buf)),
    ensures
        read_buf_filled(*final(buf)) == read_buf_filled(*old(buf)) + data@,
        read_buf_capacity(*final(buf)) == read_buf_capacity(*old(buf)),
{
    buf.put_slice(data)
}

/// `replace_with::replace_with_or_abort` puts what `f` makes of the value of `dest` in its place. It
/// aborts the process if `f` panics, which a function that meets its precondition does not.
pub assume_specification<T, F: FnOnce(T) -> T>[ replace_with::replace_with_or_abort::<T, F> ](
    dest: &mut T,
    f: F,
)
    requires
        f.requires((*old(dest),)),
    ensures
        f.ensures((*old(dest),), *final(dest)),
;

/// `replace_with::replace_with_or_abort_and_return` splits what `f` makes of the value of `dest`: the
/// second part is put in its place, and the first is returned. It aborts the process if `f` panics,
/// which a function that meets its precondition does not.
pub assume_specification<T, U, F: FnOnce(T) -> (
    U,
    T,
)>[ replace_with::replace_with_or_abort_and_return::<T, U, F> ](dest: &mut T, f: F) -> (r: U)
    requires
        f.requires((*old(dest),)),
    ensures
        f.ensures((*old(dest),), (r, *final(dest))),
;

} // verus!
