//! Duration of an MP4 file, read from the `mvhd` box inside its `moov` box.
use vstd::prelude::*;

verus! {

/// Box type `moov`, as a big-endian number.
pub const MOOV: u32 = 0x6D6F_6F76;

/// Box type `mvhd`, as a big-endian number.
pub const MVHD: u32 = 0x6D76_6864;

/// The big-endian 32-bit number at `i`.
pub open spec fn be_u32(b: Seq<u8>, i: int) -> nat {
    b[i] as nat * 16777216 + b[i + 1] as nat * 65536 + b[i + 2] as nat * 256 + b[i + 3] as nat
}

/// The big-endian 64-bit number at `i`.
pub open spec fn be_u64(b: Seq<u8>, i: int) -> nat {
    be_u32(b, i) * 4294967296 + be_u32(b, i + 4)
}

/// Header length and total length of the box at `pos` in a region ending at `end`: a size of
/// 1 means a 64-bit size follows the type, a size of 0 that the box runs to the end.
pub open spec fn box_extent(b: Seq<u8>, pos: int, end: int) -> Option<(int, int)> {
    if pos + 8 > end {
        None
    } else if be_u32(b, pos) == 1 {
        if pos + 16 > end || be_u64(b, pos + 8) < 16 {
            None
        } else {
            Some((16int, be_u64(b, pos + 8) as int))
        }
    } else if be_u32(b, pos) == 0 {
        Some((8int, end - pos))
    } else if be_u32(b, pos) < 8 {
        None
    } else {
        Some((8int, be_u32(b, pos) as int))
    }
}

/// Where the content of the first box of type `ty` among the boxes from `pos` to `end`
/// begins and ends; a box that runs past `end` is cut there.
pub open spec fn find_box(b: Seq<u8>, pos: int, end: int, ty: nat) -> Option<(int, int)>
    decreases end - pos,
{
    match box_extent(b, pos, end) {
        None => None,
        Some((header, size)) => if be_u32(b, pos + 4) == ty {
            Some((pos + header, if pos + size < end { pos + size } else { end }))
        } else if pos + size >= end {
            None
        } else {
            find_box(b, pos + size, end, ty)
        },
    }
}

/// Whole seconds of an `mvhd` box's content from `c` to `e`: duration over time scale, read
/// at the places of version 0 or version 1.
pub open spec fn mvhd_seconds(b: Seq<u8>, c: int, e: int) -> Option<nat> {
    if c >= e {
        None
    } else if b[c] == 0 && c + 20 <= e && be_u32(b, c + 12) > 0 {
        Some(be_u32(b, c + 16) / be_u32(b, c + 12))
    } else if b[c] == 1 && c + 32 <= e && be_u32(b, c + 20) > 0 {
        Some(be_u64(b, c + 24) / be_u32(b, c + 20))
    } else {
        None
    }
}

/// The duration in whole seconds that an MP4 file, or its first bytes, records.
pub open spec fn mp4_duration_of(b: Seq<u8>) -> Option<nat> {
    match find_box(b, 0, b.len() as int, MOOV as nat) {
        None => None,
        Some((c, e)) => match find_box(b, c, e, MVHD as nat) {
            None => None,
            Some((c2, e2)) => mvhd_seconds(b, c2, e2),
        },
    }
}

fn read_be_u32(b: &Vec<u8>, i: usize) -> (r: u64)
    requires
        i + 4 <= b.len(),
    ensures
        r as nat == be_u32(b@, i as int),
        r < 4294967296,
{
    (b[i] as u64) * 16777216 + (b[i + 1] as u64) * 65536 + (b[i + 2] as u64) * 256 + (b[i + 3] as u64)
}

fn read_be_u64(b: &Vec<u8>, i: usize) -> (r: u64)
    requires
        i + 8 <= b.len(),
    ensures
        r as nat == be_u64(b@, i as int),
{
    let hi = read_be_u32(b, i);
    let lo = read_be_u32(b, i + 4);
    assert(hi * 4294967296 + lo <= u64::MAX) by (nonlinear_arith)
        requires hi < 4294967296, lo < 4294967296;
    hi * 4294967296 + lo
}

fn find_box_exec(b: &Vec<u8>, start: usize, end: usize, ty: u32) -> (r: Option<(usize, usize)>)
    requires
        start <= end <= b@.len(),
    ensures
        match r {
            Some((c, e)) => find_box(b@, start as int, end as int, ty as nat) == Some((c as int, e as int))
                && start <= c <= e <= end,
            None => find_box(b@, start as int, end as int, ty as nat) is None,
        },
{
    let mut pos: usize = start;
    loop
        invariant
            start <= pos <= end <= b@.len(),
            find_box(b@, start as int, end as int, ty as nat) == find_box(
                b@,
                pos as int,
                end as int,
                ty as nat,
            ),
        decreases end - pos,
    {
        if end - pos < 8 {
            return None;
        }
        let size32 = read_be_u32(b, pos);
        let header: usize;
        let size: u64;
        if size32 == 1 {
            if end - pos < 16 {
                return None;
            }
            let s = read_be_u64(b, pos + 8);
            if s < 16 {
                return None;
            }
            header = 16;
            size = s;
        } else if size32 == 0 {
            header = 8;
            size = (end - pos) as u64;
        } else if size32 < 8 {
            return None;
        } else {
            header = 8;
            size = size32;
        }
        assert(box_extent(b@, pos as int, end as int) == Some((header as int, size as int)));
        let ty_here = read_be_u32(b, pos + 4);
        let room = (end - pos) as u64;
        if ty_here == ty as u64 {
            let box_end = if size < room { pos + size as usize } else { end };
            return Some((pos + header, box_end));
        }
        if size >= room {
            return None;
        }
        pos = pos + size as usize;
    }
}

fn mvhd_seconds_exec(b: &Vec<u8>, c: usize, e: usize) -> (r: Option<u64>)
    requires
        c <= e <= b@.len(),
    ensures
        match r {
            Some(s) => mvhd_seconds(b@, c as int, e as int) == Some(s as nat),
            None => mvhd_seconds(b@, c as int, e as int) is None,
        },
{
    if c >= e {
        return None;
    }
    let version = b[c];
    if version == 0 && e - c >= 20 {
        let scale = read_be_u32(b, c + 12);
        if scale > 0 {
            return Some(read_be_u32(b, c + 16) / scale);
        }
        None
    } else if version == 1 && e - c >= 32 {
        let scale = read_be_u32(b, c + 20);
        if scale > 0 {
            return Some(read_be_u64(b, c + 24) / scale);
        }
        None
    } else {
        None
    }
}

/// The duration in whole seconds recorded by the `mvhd` box of an MP4 file's `moov` box,
/// when the bytes given hold it.
pub fn mp4_duration_secs(data: &Vec<u8>) -> (r: Option<u64>)
    ensures
        match r {
            Some(s) => mp4_duration_of(data@) == Some(s as nat),
            None => mp4_duration_of(data@) is None,
        },
{
    match find_box_exec(data, 0, data.len(), MOOV) {
        None => None,
        Some((c, e)) => match find_box_exec(data, c, e, MVHD) {
            None => None,
            Some((c2, e2)) => mvhd_seconds_exec(data, c2, e2),
        },
    }
}

} // verus!
