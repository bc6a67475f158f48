//! The split-pack ZIP's central directory, read to decide whether an update
//! can be served by the per-file VFS delta or needs the full packs: if any
//! file outside the VFS (engine, executable, anti-cheat) differs from the
//! latest packs, only the full download brings the game up to date.

use vstd::prelude::*;

use crate::error::AppError;
use crate::text::{chars_of, decimal, decimal_chars, push_all, push_str, string_of, text_of_bytes, utf8_lossy};

verus! {

/// Where the VFS assets live inside the game; the delta covers them.
pub const VFS_PREFIX: &'static str = "Endfield_Data/StreamingAssets/VFS";

/// One file of the central directory.
#[derive(Debug, Clone)]
pub struct CdEntry {
    pub name: String,
    pub crc32: u32,
}

/// Little-endian integers at byte offset `off`.
pub open spec fn le16(b: Seq<u8>, off: int) -> int {
    b[off] + 256 * b[off + 1]
}

pub open spec fn le32(b: Seq<u8>, off: int) -> int {
    le16(b, off) + 65536 * le16(b, off + 2)
}

pub open spec fn le64(b: Seq<u8>, off: int) -> int {
    le32(b, off) + 4294967296 * le32(b, off + 4)
}

pub fn read_u16(b: &[u8], off: usize) -> (r: Option<u16>)
    ensures
        match r {
            Some(v) => off + 2 <= b@.len() && v == le16(b@, off as int),
            None => off + 2 > b@.len(),
        },
{
    if off > b.len() || b.len() - off < 2 {
        return None;
    }
    let v: u16 = b[off] as u16 + (b[off + 1] as u16) * 256;
    Some(v)
}

pub fn read_u32(b: &[u8], off: usize) -> (r: Option<u32>)
    ensures
        match r {
            Some(v) => off + 4 <= b@.len() && v == le32(b@, off as int),
            None => off + 4 > b@.len(),
        },
{
    if off > b.len() || b.len() - off < 4 {
        return None;
    }
    let lo = b[off] as u32 + (b[off + 1] as u32) * 256;
    let hi = b[off + 2] as u32 + (b[off + 3] as u32) * 256;
    Some(lo + hi * 65536)
}

pub fn read_u64(b: &[u8], off: usize) -> (r: Option<u64>)
    ensures
        match r {
            Some(v) => off + 8 <= b@.len() && v == le64(b@, off as int),
            None => off + 8 > b@.len(),
        },
{
    if off > b.len() || b.len() - off < 8 {
        return None;
    }
    let lo = read_u32(b, off).unwrap() as u64;
    let hi = read_u32(b, off + 4).unwrap() as u64;
    Some(lo + hi * 4294967296)
}

/// The Zip64 end-of-central-directory signature `PK\x06\x06` at `i`.
pub open spec fn eocd_at(b: Seq<u8>, i: int) -> bool {
    0 <= i && i + 4 <= b.len() && b[i] == 0x50 && b[i + 1] == 0x4b && b[i + 2] == 0x06 && b[i + 3] == 0x06
}

/// The last Zip64 EOCD signature in a byte range.
pub fn find_zip64_eocd(tail: &[u8]) -> (r: Option<usize>)
    ensures
        match r {
            Some(i) => eocd_at(tail@, i as int) && forall|j: int| i < j ==> !eocd_at(tail@, j),
            None => forall|j: int| !eocd_at(tail@, j),
        },
{
    if tail.len() < 4 {
        return None;
    }
    let mut i: usize = tail.len() - 4;
    loop
        invariant
            i + 4 <= tail@.len(),
            forall|j: int| i < j ==> !eocd_at(tail@, j),
        decreases i,
    {
        if tail[i] == 0x50 && tail[i + 1] == 0x4b && tail[i + 2] == 0x06 && tail[i + 3] == 0x06 {
            return Some(i);
        }
        if i == 0 {
            return None;
        }
        i = i - 1;
    }
}

fn api_error(msg: &str) -> (e: AppError)
    ensures
        e == AppError::Api(e->Api_0) && e->Api_0@ == msg@,
{
    AppError::Api(crate::text::to_owned_string(msg))
}

/// From the tail of the last pack: the number of central-directory entries
/// and the directory's global offset, read from the last Zip64 EOCD record.
pub fn read_zip64_eocd(tail: &[u8]) -> (r: Result<(u64, u64), AppError>)
    ensures
        match r {
            Ok((n, off)) => exists|i: int|
                eocd_at(tail@, i) && (forall|j: int| i < j ==> !eocd_at(tail@, j)) && i + 56 <= tail@.len()
                    && n == le64(tail@, i + 32) && off == le64(tail@, i + 48),
            Err(e) => e is Api && forall|i: int|
                eocd_at(tail@, i) && (forall|j: int| i < j ==> !eocd_at(tail@, j)) ==> i + 56 > tail@.len(),
        },
        r matches Err(AppError::Api(m)) ==> (m@ == "Zip64 EOCD not found"@ <==> forall|j: int| !eocd_at(tail@, j)),
        r matches Err(AppError::Api(m)) ==> (m@ == "Zip64 EOCD not found"@ || m@ == "bad EOCD"@),
{
    let z = match find_zip64_eocd(tail) {
        Some(z) => z,
        None => return Err(api_error("Zip64 EOCD not found")),
    };
    if tail.len() - z < 56 {
        proof {
            reveal_strlit("bad EOCD");
            reveal_strlit("Zip64 EOCD not found");
            assert("bad EOCD"@.len() != "Zip64 EOCD not found"@.len());
        }
        return Err(api_error("bad EOCD"));
    }
    let n = read_u64(tail, z + 32).unwrap();
    let off = read_u64(tail, z + 48).unwrap();
    Ok((n, off))
}

/// Where the central directory starts inside the last pack, given its
/// global offset, the packs' total size and the last pack's size; it must
/// lie in the last pack.
pub fn cd_offset_in_last_pack(cd_offset: u64, total_size: u64, last_size: u64) -> (r: Result<u64, AppError>)
    requires
        last_size <= total_size,
    ensures
        match r {
            Ok(local) => cd_offset >= total_size - last_size && local == cd_offset - (total_size - last_size),
            Err(e) => cd_offset < total_size - last_size && e == AppError::Api(e->Api_0) && e->Api_0@
                == "central directory spans parts"@,
        },
{
    if cd_offset < total_size - last_size {
        return Err(api_error("central directory spans parts"));
    }
    Ok(cd_offset - (total_size - last_size))
}

/// The central-directory file headers (`PK\x01\x02`) from offset `i` on:
/// each one's raw name and CRC-32, until the bytes stop holding a header.
pub open spec fn cd_walk(b: Seq<u8>, i: int) -> Seq<(Seq<u8>, u32)>
    decreases b.len() - i,
{
    if 0 <= i && i + 46 <= b.len() && le32(b, i) == 0x0201_4b50 {
        let nlen = le16(b, i + 28);
        let next = i + 46 + nlen + le16(b, i + 30) + le16(b, i + 32);
        let name = if i + 46 + nlen <= b.len() {
            b.subrange(i + 46, i + 46 + nlen)
        } else {
            seq![]
        };
        seq![(name, le32(b, i + 16) as u32)] + if next <= b.len() {
            cd_walk(b, next)
        } else {
            seq![]
        }
    } else {
        seq![]
    }
}

pub open spec fn cd_names(es: Seq<(Seq<u8>, u32)>) -> Seq<(Seq<char>, u32)> {
    es.map_values(|e: (Seq<u8>, u32)| (utf8_lossy(e.0), e.1))
}

pub open spec fn entry_views(v: Seq<CdEntry>) -> Seq<(Seq<char>, u32)> {
    v.map_values(|e: CdEntry| (e.name@, e.crc32))
}

proof fn lemma_cd_walk_step(b: Seq<u8>, i: int, next: int)
    requires
        0 <= i,
        i + 46 <= b.len(),
        le32(b, i) == 0x0201_4b50,
        next == i + 46 + le16(b, i + 28) + le16(b, i + 30) + le16(b, i + 32),
    ensures
        cd_walk(b, i) == seq![(
            if i + 46 + le16(b, i + 28) <= b.len() {
                b.subrange(i + 46, i + 46 + le16(b, i + 28))
            } else {
                seq![]
            },
            le32(b, i + 16) as u32,
        )] + cd_walk(b, next),
{
}

/// Every file of the central directory, checked against the count its EOCD
/// record announces; a directory that does not parse in full is an error,
/// so the caller falls back to the full packs.
pub fn parse_central_directory(cd: &[u8], total_entries: u64) -> (r: Result<Vec<CdEntry>, AppError>)
    requires
        cd@.len() + 0x40000 < usize::MAX,
    ensures
        match r {
            Ok(es) => entry_views(es@) == cd_names(cd_walk(cd@, 0)) && es@.len() == total_entries,
            Err(e) => e == AppError::Api(e->Api_0) && cd_walk(cd@, 0).len() != total_entries && e->Api_0@
                == "central directory incomplete: parsed "@ + crate::text::decimal(cd_walk(cd@, 0).len())
                + " of "@ + crate::text::decimal(total_entries as nat),
        },
{
    let mut entries: Vec<CdEntry> = Vec::new();
    let mut i: usize = 0;
    let ghost all = cd_walk(cd@, 0);
    assert(entry_views(entries@) + cd_names(cd_walk(cd@, 0)) =~= cd_names(all));
    while i + 46 <= cd.len() && read_u32(cd, i) == Some(0x0201_4b50u32)
        invariant
            cd@.len() + 0x40000 < usize::MAX,
            i <= cd@.len() + 0x30000,
            all == cd_walk(cd@, 0),
            entry_views(entries@) + cd_names(cd_walk(cd@, i as int)) == cd_names(all),
        decreases cd@.len() + 0x30000 - i,
    {
        let crc = read_u32(cd, i + 16).unwrap();
        let nlen = read_u16(cd, i + 28).unwrap() as usize;
        let elen = read_u16(cd, i + 30).unwrap() as usize;
        let clen = read_u16(cd, i + 32).unwrap() as usize;
        let name_bytes: Vec<u8> = if nlen <= cd.len() - (i + 46) {
            let mut nb: Vec<u8> = Vec::new();
            let mut k: usize = i + 46;
            let end: usize = i + 46 + nlen;
            while k < end
                invariant
                    end == i + 46 + nlen,
                    i + 46 <= k <= i + 46 + nlen <= cd@.len(),
                    nb@ == cd@.subrange(i + 46, k as int),
                decreases end - k,
            {
                nb.push(cd[k]);
                k = k + 1;
                assert(nb@ =~= cd@.subrange(i + 46, k as int));
            }
            nb
        } else {
            Vec::new()
        };
        let name = text_of_bytes(name_bytes.as_slice());
        let next = i + 46 + nlen + elen + clen;
        proof {
            lemma_cd_walk_step(cd@, i as int, next as int);
            assert(name_bytes@ =~= (if i + 46 + nlen <= cd@.len() {
                cd@.subrange(i + 46, i + 46 + nlen)
            } else {
                seq![]
            }));
        }
        let ghost e0 = entries@;
        entries.push(CdEntry { name, crc32: crc });
        assert(entry_views(entries@) =~= entry_views(e0).push((name@, crc)));
        assert(entry_views(entries@) + cd_names(cd_walk(cd@, next as int)) =~= cd_names(all));
        i = next;
    }
    proof {
        if !(i + 46 <= cd@.len()) {
        }
        assert(cd_walk(cd@, i as int) =~= Seq::<(Seq<u8>, u32)>::empty());
        assert(entry_views(entries@) =~= cd_names(all));
    }
    if entries.len() as u64 != total_entries {
        let mut m: Vec<char> = Vec::new();
        push_str(&mut m, "central directory incomplete: parsed ");
        let a = decimal_chars(entries.len() as u64);
        push_all(&mut m, a.as_slice());
        push_str(&mut m, " of ");
        let b = decimal_chars(total_entries);
        push_all(&mut m, b.as_slice());
        return Err(AppError::Api(string_of(m.as_slice())));
    }
    Ok(entries)
}

/// A file the VFS delta does not cover: neither a directory nor a VFS asset.
pub open spec fn is_engine_file(name: Seq<char>) -> bool {
    !crate::text::ends_with(name, "/"@) && !crate::text::starts_with(name, VFS_PREFIX@)
}

pub fn engine_file(name: &str) -> (b: bool)
    ensures
        b == is_engine_file(name@),
{
    let v = chars_of(name);
    let slash = chars_of("/");
    let vfs = chars_of(VFS_PREFIX);
    !crate::text::has_suffix(v.as_slice(), slash.as_slice()) && !crate::text::has_prefix(
        v.as_slice(),
        vfs.as_slice(),
    )
}

/// Whether every engine file on disk matches the latest packs. `local[i]`
/// is the CRC-32 of the local copy of `entries[i]`, `None` when it is
/// missing or unreadable; only engine files are consulted.
pub fn engine_is_current(entries: &[CdEntry], local: &[Option<u32>]) -> (b: bool)
    requires
        local@.len() == entries@.len(),
    ensures
        b == forall|i: int|
            0 <= i < entries@.len() && is_engine_file(#[trigger] entries@[i].name@) ==> local@[i] == Some(
                entries@[i].crc32,
            ),
{
    let mut i: usize = 0;
    while i < entries.len()
        invariant
            i <= entries@.len(),
            local@.len() == entries@.len(),
            forall|j: int|
                0 <= j < i && is_engine_file(#[trigger] entries@[j].name@) ==> local@[j] == Some(entries@[j].crc32),
        decreases entries.len() - i,
    {
        if engine_file(entries[i].name.as_str()) {
            match local[i] {
                Some(c) => if c != entries[i].crc32 {
                    return false;
                },
                None => return false,
            }
        }
        i = i + 1;
    }
    true
}

} // verus!

verus! {

/// A pack's advertised size, zero when it does not parse.
pub open spec fn size_or_zero(p: crate::api_types::PackFile) -> nat {
    match crate::text::parse_u64_spec(p.package_size@) {
        Some(n) => n as nat,
        None => 0,
    }
}

pub open spec fn total_size_of(packs: Seq<crate::api_types::PackFile>) -> nat
    decreases packs.len(),
{
    if packs.len() == 0 {
        0
    } else {
        total_size_of(packs.drop_last()) + size_or_zero(packs.last())
    }
}

/// The last pack's size and the packs' total size, which locate the
/// archive's trailing records. No packs, or a zero size, is an error.
pub fn pack_layout(packs: &[crate::api_types::PackFile]) -> (r: Result<(u64, u64), AppError>)
    ensures
        match r {
            Ok((last, total)) => packs@.len() > 0 && last == size_or_zero(packs@.last()) && total
                == total_size_of(packs@) && last > 0 && total > 0,
            Err(e) => e is Api && (packs@.len() == 0 || size_or_zero(packs@.last()) == 0 || total_size_of(
                packs@,
            ) == 0 || total_size_of(packs@) > u64::MAX),
        },
        r matches Err(AppError::Api(m)) ==> (if packs@.len() == 0 {
            m@ == "no packs"@
        } else {
            m@ == "pack sizes unavailable"@
        }),
{
    if packs.len() == 0 {
        return Err(api_error("no packs"));
    }
    let mut total: u64 = 0;
    let mut i: usize = 0;
    while i < packs.len()
        invariant
            i <= packs@.len(),
            total == total_size_of(packs@.take(i as int)),
        decreases packs.len() - i,
    {
        assert(packs@.take(i + 1).drop_last() =~= packs@.take(i as int));
        let v = chars_of(packs[i].package_size.as_str());
        let n = match crate::text::parse_u64(v.as_slice()) {
            Some(n) => n,
            None => 0,
        };
        if total > u64::MAX - n {
            proof {
                lemma_total_monotone(packs@, i + 1);
            }
            return Err(api_error("pack sizes unavailable"));
        }
        total = total + n;
        i = i + 1;
    }
    assert(packs@.take(i as int) =~= packs@);
    let lv = chars_of(packs[packs.len() - 1].package_size.as_str());
    let last = match crate::text::parse_u64(lv.as_slice()) {
        Some(n) => n,
        None => 0,
    };
    if last == 0 || total == 0 {
        return Err(api_error("pack sizes unavailable"));
    }
    Ok((last, total))
}

proof fn lemma_total_monotone(packs: Seq<crate::api_types::PackFile>, k: int)
    requires
        0 <= k <= packs.len(),
    ensures
        total_size_of(packs.take(k)) <= total_size_of(packs),
    decreases packs.len() - k,
{
    if k < packs.len() {
        lemma_total_monotone(packs, k + 1);
        assert(packs.take(k + 1).drop_last() =~= packs.take(k));
    }
    assert(packs.take(packs.len() as int) =~= packs);
}

} // verus!
