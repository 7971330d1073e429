//! The commands of the protocol, as the bytes that go on the wire.
use crate::codec::{padded_decimal, push_padded_decimal};
use vstd::prelude::*;

verus! {

/// Which samples a scan returns.
#[derive(Clone, Copy, Debug, PartialEq, Eq, Structural)]
pub enum ScanKind {
    /// Distances only, three bytes per sample.
    Distance,
    /// Distance and intensity, six bytes per sample.
    DistanceIntensity,
}

/// The status of each reply of a scan series: `99`, more scans follow.
pub open spec fn continuation_status() -> Seq<u8> {
    seq![0x39u8, 0x39u8]
}

/// The status of an accepted command: `00`.
pub open spec fn ok_status() -> Seq<u8> {
    seq![0x30u8, 0x30u8]
}

/// The bytes that encode one sample of this kind.
pub open spec fn record_width(kind: ScanKind) -> nat {
    match kind {
        ScanKind::Distance => 3,
        ScanKind::DistanceIntensity => 6,
    }
}

/// The code of a single scan: `GD` or `GE`.
pub open spec fn single_code(kind: ScanKind) -> Seq<u8> {
    match kind {
        ScanKind::Distance => seq![0x47u8, 0x44u8],
        ScanKind::DistanceIntensity => seq![0x47u8, 0x45u8],
    }
}

/// The code of a scan series: `MD` or `ME`.
pub open spec fn multi_code(kind: ScanKind) -> Seq<u8> {
    match kind {
        ScanKind::Distance => seq![0x4Du8, 0x44u8],
        ScanKind::DistanceIntensity => seq![0x4Du8, 0x45u8],
    }
}

/// A single scan: code, four-digit start step, four-digit end step, two-digit
/// cluster count.
pub open spec fn single_scan_command(kind: ScanKind, start: u32, end: u32, cluster: u32) -> Seq<u8> {
    single_code(kind) + padded_decimal(start as nat, 4) + padded_decimal(end as nat, 4)
        + padded_decimal(cluster as nat, 2)
}

/// A scan series: code, four-digit start step, four-digit end step, two-digit
/// cluster count, one-digit skip count, two-digit scan count.
pub open spec fn multi_scan_command(
    kind: ScanKind,
    start: u32,
    end: u32,
    cluster: u32,
    skip: u32,
    count: u32,
) -> Seq<u8> {
    multi_code(kind) + padded_decimal(start as nat, 4) + padded_decimal(end as nat, 4)
        + padded_decimal(cluster as nat, 2) + padded_decimal(skip as nat, 1) + padded_decimal(
        count as nat,
        2,
    )
}

/// The two bytes `a`, `b`.
pub fn two_bytes(a: u8, b: u8) -> (r: Vec<u8>)
    ensures
        r@ == seq![a, b],
{
    let mut r: Vec<u8> = Vec::new();
    r.push(a);
    r.push(b);
    assert(r@ =~= seq![a, b]);
    r
}

fn code_bytes(kind: ScanKind, multi: bool) -> (r: Vec<u8>)
    ensures
        multi ==> r@ == multi_code(kind),
        !multi ==> r@ == single_code(kind),
{
    let first: u8 = if multi {
        0x4D
    } else {
        0x47
    };
    let second: u8 = match kind {
        ScanKind::Distance => 0x44,
        ScanKind::DistanceIntensity => 0x45,
    };
    two_bytes(first, second)
}

/// Builds the command of a single scan.
pub fn single_scan(kind: ScanKind, start: u32, end: u32, cluster: u32) -> (r: Vec<u8>)
    ensures
        r@ == single_scan_command(kind, start, end, cluster),
{
    let mut r = code_bytes(kind, false);
    push_padded_decimal(&mut r, start, 4);
    push_padded_decimal(&mut r, end, 4);
    push_padded_decimal(&mut r, cluster, 2);
    r
}

/// Builds the command of a scan series.
pub fn multi_scan(kind: ScanKind, start: u32, end: u32, cluster: u32, skip: u32, count: u32) -> (r:
    Vec<u8>)
    ensures
        r@ == multi_scan_command(kind, start, end, cluster, skip, count),
{
    let mut r = code_bytes(kind, true);
    push_padded_decimal(&mut r, start, 4);
    push_padded_decimal(&mut r, end, 4);
    push_padded_decimal(&mut r, cluster, 2);
    push_padded_decimal(&mut r, skip, 1);
    push_padded_decimal(&mut r, count, 2);
    r
}

} // verus!
