//! Event masks of the readiness reactor.
//!
//! The reactor reports what a file descriptor is ready for as a mask of
//! bits, and takes what a descriptor is to be watched for in the same
//! form. The bits are those of `libc`.
use vstd::prelude::*;
use crate::server::engine::{Interest, Readiness};

verus! {

/// `libc::EPOLLIN`, the bit for data to read. Its value is taken from the
/// crate and not proved here: the contract says that it is `0x001`.
#[verifier::external_body]
fn epoll_in() -> (r: u32)
    ensures
        r == 0x001,
{
    libc::EPOLLIN as u32
}

/// `libc::EPOLLOUT`, the bit for room to write. Its value is taken from the
/// crate and not proved here: the contract says that it is `0x004`.
#[verifier::external_body]
fn epoll_out() -> (r: u32)
    ensures
        r == 0x004,
{
    libc::EPOLLOUT as u32
}

/// `libc::EPOLLERR`, the bit for an error. Its value is taken from the
/// crate and not proved here: the contract says that it is `0x008`.
#[verifier::external_body]
fn epoll_err() -> (r: u32)
    ensures
        r == 0x008,
{
    libc::EPOLLERR as u32
}

/// `libc::EPOLLHUP`, the bit for a hangup. Its value is taken from the
/// crate and not proved here: the contract says that it is `0x010`.
#[verifier::external_body]
fn epoll_hup() -> (r: u32)
    ensures
        r == 0x010,
{
    libc::EPOLLHUP as u32
}

/// What an event mask reports: each of the four bits on its own.
pub open spec fn readiness(events: u32) -> Readiness {
    Readiness {
        readable: events & 0x001 != 0,
        writable: events & 0x004 != 0,
        error: events & 0x008 != 0,
        hangup: events & 0x010 != 0,
    }
}

/// The event mask to watch a descriptor with.
pub open spec fn event_mask(interest: Interest) -> u32 {
    match interest {
        Interest::Readable => 0x001,
        Interest::Writable => 0x004,
    }
}

/// What an event mask reports.
pub fn readiness_of(events: u32) -> (r: Readiness)
    ensures
        r == readiness(events),
{
    Readiness {
        readable: events & epoll_in() != 0,
        writable: events & epoll_out() != 0,
        error: events & epoll_err() != 0,
        hangup: events & epoll_hup() != 0,
    }
}

/// The event mask for an interest.
pub fn events_for(interest: Interest) -> (r: u32)
    ensures
        r == event_mask(interest),
{
    match interest {
        Interest::Readable => epoll_in(),
        Interest::Writable => epoll_out(),
    }
}

/// A report with the mask of an interest says that the descriptor is ready
/// for what it was watched for, and nothing else.
pub proof fn lemma_mask_reports_interest(interest: Interest)
    ensures
        readiness(event_mask(interest)) == (Readiness {
            readable: interest == Interest::Readable,
            writable: interest == Interest::Writable,
            error: false,
            hangup: false,
        }),
{
    assert(0x001u32 & 0x001 != 0 && 0x001u32 & 0x004 == 0 && 0x001u32 & 0x008 == 0 && 0x001u32
        & 0x010 == 0) by (bit_vector);
    assert(0x004u32 & 0x001 == 0 && 0x004u32 & 0x004 != 0 && 0x004u32 & 0x008 == 0 && 0x004u32
        & 0x010 == 0) by (bit_vector);
}

} // verus!
