//! The listener's configuration and the per-connection read decisions.
use vstd::prelude::*;

verus! {

/// The most bytes read for one request before the connection is given up.
pub const MAX_REQUEST_BYTES: usize = 65536;

/// A listener bound to one socket address.
pub struct Server {
    socket_address: String,
}

/// What to do after the bytes read so far on a connection.
#[derive(PartialEq, Eq, Structural, Debug, Clone, Copy)]
pub enum ReadProgress {
    /// The header terminator has arrived: parse the request.
    Complete,
    /// No terminator yet and room left: read more.
    NeedMore,
    /// No terminator within the size cap: drop the connection.
    TooLarge,
    /// The peer closed without sending anything: close without answering.
    Closed,
}

/// The bytes hold the blank line `\r\n\r\n` that ends the header block.
pub open spec fn has_terminator(b: Seq<u8>) -> bool {
    exists|i: int|
        0 <= i && i + 4 <= b.len() && #[trigger] b.subrange(i, i + 4) == seq![13u8, 10u8, 13u8, 10u8]
}

pub open spec fn progress_of(b: Seq<u8>) -> ReadProgress {
    if has_terminator(b) {
        ReadProgress::Complete
    } else if b.len() > MAX_REQUEST_BYTES {
        ReadProgress::TooLarge
    } else {
        ReadProgress::NeedMore
    }
}

/// What the bytes read amount to once the peer has stopped sending: what
/// arrived is parsed as it stands, unless it is nothing or too much.
pub open spec fn progress_at_close(b: Seq<u8>) -> ReadProgress {
    if b.len() == 0 {
        ReadProgress::Closed
    } else if has_terminator(b) || b.len() <= MAX_REQUEST_BYTES {
        ReadProgress::Complete
    } else {
        ReadProgress::TooLarge
    }
}

impl Server {
    /// The decision once the peer has closed its side.
    pub fn read_progress_at_close(buf: &[u8]) -> (r: ReadProgress)
        ensures
            r == progress_at_close(buf@),
    {
        if buf.len() == 0 {
            return ReadProgress::Closed;
        }
        match Self::read_progress(buf) {
            ReadProgress::TooLarge => ReadProgress::TooLarge,
            _ => ReadProgress::Complete,
        }
    }

    pub fn new(socket_addr: &str) -> (r: Server)
        ensures
            r.socket_address_view() == socket_addr@,
    {
        Server { socket_address: String::from_str(socket_addr) }
    }

    pub closed spec fn socket_address_view(&self) -> Seq<char> {
        self.socket_address@
    }

    /// The address to listen on.
    pub fn socket_address(&self) -> (r: &str)
        ensures
            r@ == self.socket_address_view(),
    {
        self.socket_address.as_str()
    }

    /// Whether the bytes read so far end the header block, or are too many.
    pub fn read_progress(buf: &[u8]) -> (r: ReadProgress)
        ensures
            r == progress_of(buf@),
    {
        let n = buf.len();
        let mut i: usize = 0;
        while n >= 4 && i <= n - 4
            invariant
                n == buf@.len(),
                i <= n,
                forall|k: int|
                    0 <= k < i ==> #[trigger] buf@.subrange(k, k + 4) != seq![13u8, 10u8, 13u8, 10u8],
            decreases n - i,
        {
            if buf[i] == 13u8 && buf[i + 1] == 10u8 && buf[i + 2] == 13u8 && buf[i + 3] == 10u8 {
                assert(buf@.subrange(i as int, i + 4) =~= seq![13u8, 10u8, 13u8, 10u8]);
                return ReadProgress::Complete;
            }
            assert(buf@.subrange(i as int, i + 4)[0] == buf@[i as int]);
            assert(buf@.subrange(i as int, i + 4)[1] == buf@[i + 1]);
            assert(buf@.subrange(i as int, i + 4)[2] == buf@[i + 2]);
            assert(buf@.subrange(i as int, i + 4)[3] == buf@[i + 3]);
            i = i + 1;
        }
        if n > MAX_REQUEST_BYTES {
            ReadProgress::TooLarge
        } else {
            ReadProgress::NeedMore
        }
    }
}

} // verus!
