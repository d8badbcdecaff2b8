//! The host part of a destination, as it stands on the wire.

use vstd::prelude::*;

verus! {

/// The host part of a destination: an IPv4 address, an IPv6 address or a
/// domain name, as the bytes that stand on the wire.
#[derive(Debug, Clone)]
pub enum Addr {
    V4([u8; 4]),
    V6([u8; 16]),
    Domain(Vec<u8>),
}

/// What an [`Addr`] stands for.
pub enum AddrValue {
    V4(Seq<u8>),
    V6(Seq<u8>),
    Domain(Seq<u8>),
}

impl View for Addr {
    type V = AddrValue;

    open spec fn view(&self) -> AddrValue {
        match self {
            Addr::V4(a) => AddrValue::V4(a@),
            Addr::V6(a) => AddrValue::V6(a@),
            Addr::Domain(d) => AddrValue::Domain(d@),
        }
    }
}

impl Addr {
    /// The IPv4 address whose four bytes stand at `at` in `buf`.
    pub fn v4_at(buf: &[u8], at: usize) -> (a: Addr)
        requires
            at + 4 <= buf@.len(),
        ensures
            a@ == AddrValue::V4(buf@.subrange(at as int, at + 4)),
    {
        let a = [buf[at], buf[at + 1], buf[at + 2], buf[at + 3]];
        assert(a@ =~= buf@.subrange(at as int, at + 4));
        Addr::V4(a)
    }

    /// The IPv6 address whose sixteen bytes stand at `at` in `buf`.
    pub fn v6_at(buf: &[u8], at: usize) -> (a: Addr)
        requires
            at + 16 <= buf@.len(),
        ensures
            a@ == AddrValue::V6(buf@.subrange(at as int, at + 16)),
    {
        let a = [
            buf[at],
            buf[at + 1],
            buf[at + 2],
            buf[at + 3],
            buf[at + 4],
            buf[at + 5],
            buf[at + 6],
            buf[at + 7],
            buf[at + 8],
            buf[at + 9],
            buf[at + 10],
            buf[at + 11],
            buf[at + 12],
            buf[at + 13],
            buf[at + 14],
            buf[at + 15],
        ];
        assert(a@ =~= buf@.subrange(at as int, at + 16));
        Addr::V6(a)
    }
}

} // verus!
