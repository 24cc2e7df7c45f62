//! What has been received for a connection and not been read yet.
use crate::error::Fault;
use crate::outside;
use crate::poll::Poll;
use tokio::io::ReadBuf;
use vstd::prelude::*;

verus! {

/// What a [`ReadBuffer`] holds: the bytes that wait to be read, and how many before them have been
/// read since the buffer was last empty.
#[verifier::ext_equal]
pub struct ReadBufferView {
    pub unread: Seq<u8>,
    pub pos: nat,
    pub capacity: nat,
}

impl ReadBufferView {
    /// How many bytes the buffer is taken up by.
    pub open spec fn filled(self) -> nat {
        self.pos + self.unread.len()
    }

    /// The buffer is not taken up by more than it can be, and is not taken up at all once it has
    /// been read empty.
    pub open spec fn valid(self) -> bool {
        &&& 0 < self.capacity
        &&& self.filled() <= self.capacity
        &&& self.unread.len() == 0 ==> self.pos == 0
    }

    /// How many bytes can be received before the buffer has to be read empty.
    pub open spec fn remaining(self) -> nat {
        (self.capacity - self.filled()) as nat
    }

    /// The buffer after `more` has been received.
    pub open spec fn received(self, more: Seq<u8>) -> ReadBufferView {
        ReadBufferView { unread: self.unread + more, ..self }
    }

    /// The buffer after its first `n` bytes have been read. Once it has been read empty all of it
    /// can be filled again.
    pub open spec fn consumed(self, n: nat) -> ReadBufferView {
        ReadBufferView {
            unread: self.unread.skip(n as int),
            pos: if n == self.unread.len() {
                0
            } else {
                self.pos + n
            },
            ..self
        }
    }
}

/// What `Vec::try_reserve` answers when an empty vector asks for memory for `capacity` bytes.
pub open spec fn allocator_answers(
    capacity: usize,
    answer: Result<(), std::collections::TryReserveError>,
) -> bool {
    exists|storage: &mut Vec<u8>|
        storage@.len() == 0 && #[trigger] call_ensures(
            Vec::<u8>::try_reserve,
            (storage, capacity),
            answer,
        )
}

/// The allocator gives memory for `capacity` bytes.
pub open spec fn granted(capacity: usize) -> bool {
    exists|answer: Result<(), std::collections::TryReserveError>|
        answer is Ok && #[trigger] allocator_answers(capacity, answer)
}

/// The allocator refuses memory for `capacity` bytes.
pub open spec fn refused(capacity: usize) -> bool {
    exists|answer: Result<(), std::collections::TryReserveError>|
        answer is Err && #[trigger] allocator_answers(capacity, answer)
}

/// A buffer between the stream, which fills it, and the owner of a connection, who reads it.
#[derive(Debug)]
pub struct ReadBuffer {
    /// What the buffer is taken up by.
    bytes: Vec<u8>,
    /// How far the owner has read.
    pos: usize,
    /// How much the buffer can be taken up by.
    capacity: usize,
}

impl View for ReadBuffer {
    type V = ReadBufferView;

    closed spec fn view(&self) -> ReadBufferView {
        ReadBufferView {
            unread: self.bytes@.skip(self.pos as int),
            pos: self.pos as nat,
            capacity: self.capacity as nat,
        }
    }
}

impl ReadBuffer {
    /// No more has been read than has been received.
    pub closed spec fn storage_wf(&self) -> bool {
        self.pos <= self.bytes@.len()
    }

    /// The buffer is as it has to be between two calls.
    pub open spec fn wf(&self) -> bool {
        &&& self.storage_wf()
        &&& self@.valid()
    }

    /// An empty buffer that can be taken up by `capacity` bytes, if memory for them could be had.
    pub fn from_reservation(storage: Vec<u8>, reserved: bool, capacity: usize) -> (r: Result<
        Self,
        Fault,
    >)
        requires
            storage@.len() == 0,
            capacity > 0,
        ensures
            match r {
                Ok(buffer) => {
                    &&& reserved
                    &&& capacity <= isize::MAX
                    &&& buffer.wf()
                    &&& buffer@ == (ReadBufferView {
                        unread: seq![],
                        pos: 0,
                        capacity: capacity as nat,
                    })
                },
                Err(fault) => {
                    &&& !reserved || capacity > isize::MAX
                    &&& fault == Fault::OutOfMemory
                },
            },
    {
        if reserved && capacity <= isize::MAX as usize {
            let r: Self = Self { bytes: storage, pos: 0, capacity };
            assert(r@.unread =~= seq![]);
            Ok(r)
        } else {
            Err(Fault::OutOfMemory)
        }
    }

    /// An empty buffer that can be taken up by `capacity` bytes. `Vec::try_reserve` is asked for
    /// memory for them, and whether there is any is for the allocator to say; there never is for
    /// more than `isize::MAX`.
    pub fn new(capacity: usize) -> (r: Result<Self, Fault>)
        requires
            capacity > 0,
        ensures
            match r {
                Ok(buffer) => {
                    &&& granted(capacity)
                    &&& capacity <= isize::MAX
                    &&& buffer.wf()
                    &&& buffer@ == (ReadBufferView {
                        unread: seq![],
                        pos: 0,
                        capacity: capacity as nat,
                    })
                },
                Err(fault) => {
                    &&& refused(capacity) || capacity > isize::MAX
                    &&& fault == Fault::OutOfMemory
                },
            },
    {
        let mut storage: Vec<u8> = Vec::new();
        let answer: Result<(), std::collections::TryReserveError> = storage.try_reserve(capacity);
        assert(allocator_answers(capacity, answer));
        let reserved: bool = answer.is_ok();
        Self::from_reservation(storage, reserved, capacity)
    }

    /// How much the buffer can be taken up by.
    pub fn capacity(&self) -> (r: usize)
        ensures
            r == self@.capacity,
    {
        self.capacity
    }

    /// How much has been read since the buffer was last empty.
    pub fn pos(&self) -> (r: usize)
        ensures
            r == self@.pos,
    {
        self.pos
    }

    /// How much the buffer is taken up by.
    pub fn filled(&self) -> (r: usize)
        requires
            self.wf(),
        ensures
            r == self@.filled(),
    {
        self.bytes.len()
    }

    /// How many bytes can be received before the buffer has to be read empty.
    pub fn remaining(&self) -> (r: usize)
        requires
            self.wf(),
        ensures
            r == self@.remaining(),
    {
        self.capacity - self.bytes.len()
    }

    /// What waits to be read.
    pub fn bytes(&self) -> (r: &[u8])
        requires
            self.wf(),
        ensures
            r@ == self@.unread,
    {
        let r: &[u8] = vstd::slice::slice_subrange(
            self.bytes.as_slice(),
            self.pos,
            self.bytes.len(),
        );
        assert(r@ =~= self@.unread);
        r
    }

    /// Takes in what the stream gave when it was asked for at most [`ReadBuffer::remaining`]
    /// bytes, and returns how many came. The answer is `None` if the buffer can take none; the
    /// stream is then not asked.
    pub fn fill_buffer<E>(&mut self, read: Poll<Result<&[u8], E>>) -> (r: Poll<
        Result<Option<usize>, E>,
    >)
        requires
            old(self).wf(),
            read matches Poll::Ready(Ok(data)) ==> data@.len() <= old(self)@.remaining(),
        ensures
            final(self).wf(),
            if old(self)@.remaining() == 0 {
                &&& final(self)@ == old(self)@
                &&& r == Poll::<Result<Option<usize>, E>>::Ready(Ok(None))
            } else {
                match read {
                    Poll::Ready(Ok(data)) => {
                        &&& final(self)@ == old(self)@.received(data@)
                        &&& r matches Poll::Ready(Ok(Some(n)))
                        &&& n == data@.len()
                    },
                    Poll::Ready(Err(e)) => {
                        &&& final(self)@ == old(self)@
                        &&& r == Poll::<Result<Option<usize>, E>>::Ready(Err(e))
                    },
                    Poll::Pending => {
                        &&& final(self)@ == old(self)@
                        &&& r == Poll::<Result<Option<usize>, E>>::Pending
                    },
                }
            },
    {
        if self.remaining() == 0 {
            return Poll::Ready(Ok(None));
        }
        match read {
            Poll::Ready(Ok(data)) => {
                let ghost before = self.bytes@;
                self.bytes.extend_from_slice(data);
                assert(self.bytes@ =~= before + data@);
                assert(self@.unread =~= old(self)@.unread + data@);
                Poll::Ready(Ok(Some(data.len())))
            },
            Poll::Ready(Err(e)) => Poll::Ready(Err(e)),
            Poll::Pending => Poll::Pending,
        }
    }

    /// Reads as much as fits into `buffer`.
    pub fn read(&mut self, buffer: &mut ReadBuf<'_>)
        requires
            old(self).wf(),
        ensures
            final(self).wf(),
            outside::read_buf_filled(*old(buffer)).len() <= outside::read_buf_capacity(
                *old(buffer),
            ),
            ({
                let room = outside::read_buf_capacity(*old(buffer)) - outside::read_buf_filled(
                    *old(buffer),
                ).len();
                let unread = old(self)@.unread;
                let n = if room <= unread.len() {
                    room
                } else {
                    unread.len() as int
                };
                &&& final(self)@ == old(self)@.consumed(n as nat)
                &&& outside::read_buf_filled(*final(buffer)) == outside::read_buf_filled(
                    *old(buffer),
                ) + unread.take(n)
                &&& outside::read_buf_capacity(*final(buffer)) == outside::read_buf_capacity(
                    *old(buffer),
                )
            }),
    {
        let room: usize = outside::read_buf_remaining(buffer);
        let bytes: &[u8] = self.bytes();
        let len: usize = if room <= bytes.len() {
            room
        } else {
            bytes.len()
        };
        if len == 0 {
            assert(self@.unread.skip(0) =~= self@.unread);
            assert(outside::read_buf_filled(*buffer) + self@.unread.take(0)
                =~= outside::read_buf_filled(*buffer));
            return;
        }
        let part: &[u8] = vstd::slice::slice_subrange(bytes, 0, len);
        assert(part@ =~= self@.unread.take(len as int));
        outside::read_buf_put_slice(buffer, part);
        self.pos = self.pos + len;
        if self.pos == self.bytes.len() {
            self.pos = 0;
            self.bytes.clear();
        }
        assert(self@.unread =~= old(self)@.unread.skip(len as int));
    }
}

/// Reading gives back what was received, in order: what is read in any number of steps, followed by
/// what is still unread, is what was received.
pub proof fn law_read_gives_back_what_was_received(
    buffer: ReadBufferView,
    more: Seq<u8>,
    n: nat,
)
    requires
        n <= buffer.received(more).unread.len(),
    ensures
        buffer.received(more).unread.take(n as int) + buffer.received(more).consumed(n).unread
            == buffer.unread + more,
{
    let all = buffer.received(more).unread;
    assert(all.take(n as int) + all.skip(n as int) =~= all);
}

/// Reading in two steps is reading in one.
pub proof fn law_read_in_steps(buffer: ReadBufferView, m: nat, n: nat)
    requires
        m + n <= buffer.unread.len(),
    ensures
        buffer.unread.take(m as int) + buffer.consumed(m).unread.take(n as int)
            == buffer.unread.take((m + n) as int),
        buffer.consumed(m).consumed(n) == buffer.consumed(m + n),
{
    assert(buffer.unread.take(m as int) + buffer.unread.skip(m as int).take(n as int)
        =~= buffer.unread.take((m + n) as int));
    assert(buffer.unread.skip(m as int).skip(n as int) =~= buffer.unread.skip((m + n) as int));
}

/// A buffer that can take nothing holds something to read, so whoever waits for room is woken by the
/// next read. Once it has been read empty all of it is room.
pub proof fn law_full_buffer_can_be_read(buffer: ReadBufferView)
    requires
        buffer.valid(),
        buffer.remaining() == 0,
    ensures
        buffer.unread.len() > 0,
        buffer.consumed(buffer.unread.len()).remaining() == buffer.capacity,
{
}

/// Receiving no more than there is room for, and reading no more than there is, keep a buffer as it
/// has to be.
pub proof fn law_buffer_stays_valid(buffer: ReadBufferView, more: Seq<u8>, n: nat)
    requires
        buffer.valid(),
        more.len() <= buffer.remaining(),
        n <= buffer.unread.len(),
    ensures
        buffer.received(more).valid(),
        buffer.consumed(n).valid(),
{
}

} // verus!
