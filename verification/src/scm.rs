//! Which of the file descriptors that come along with a message are taken:
//! the decisions of walking the control messages of a received message.

use vstd::prelude::*;

verus! {

/// The number of descriptors that a rights-passing control message of
/// `cmsg_len` bytes carries after its `header_len`-byte header, when each
/// descriptor takes `fd_size` bytes.
pub open spec fn fds_carried(cmsg_len: usize, header_len: usize, fd_size: usize) -> int {
    (cmsg_len - header_len) / fd_size as int
}

/// How many descriptors to take from a control message, when `room` more
/// fit in the caller's array: none from a message that passes no rights;
/// from one that does, as many as it carries and fit; `None` when that is
/// none at all, which ends the walk.
pub fn scm_rights_take(
    passes_rights: bool,
    cmsg_len: usize,
    header_len: usize,
    fd_size: usize,
    room: usize,
) -> (r: Option<usize>)
    requires
        fd_size > 0,
        passes_rights ==> header_len <= cmsg_len,
    ensures
        !passes_rights ==> r == Some(0usize),
        passes_rights ==> ({
            let n = if fds_carried(cmsg_len, header_len, fd_size) < room {
                fds_carried(cmsg_len, header_len, fd_size)
            } else {
                room as int
            };
            if n == 0 {
                r is None
            } else {
                r == Some(n as usize)
            }
        }),
        r matches Some(n) ==> n <= room,
{
    if !passes_rights {
        return Some(0);
    }
    let count = (cmsg_len - header_len) / fd_size;
    let to_copy = if count < room {
        count
    } else {
        room
    };
    if to_copy == 0 {
        None
    } else {
        Some(to_copy)
    }
}

} // verus!
