//! Which icon raster serves a given display scale, decided over the sizes an
//! `.ico` file holds.
//!
//! Windows draws the small icon (titlebar, notification area) at
//! `16 * scale` and the large one (Alt+Tab, taskbar) at `32 * scale`. The
//! caller turns the scale factor into those two pixel sizes; the rules here
//! pick an entry conservatively: the window icon only moves off the bundled
//! default to an entry that serves both sizes at least as well, and the tray
//! takes the exact size or the next one up.

use vstd::prelude::*;

verus! {

/// One PNG-encoded entry of an `.ico` file: its size in pixels, and where its
/// payload lies in the file.
#[derive(Debug, Clone, Copy, PartialEq, Eq, Structural)]
pub struct IcoEntry {
    pub px: u32,
    pub offset: usize,
    pub len: usize,
}

pub open spec fn u16_le(b0: u8, b1: u8) -> nat {
    b0 as nat + 256 * (b1 as nat)
}

pub open spec fn u32_le(b: Seq<u8>, at: int) -> nat {
    b[at] as nat + 256 * (b[at + 1] as nat) + 65536 * (b[at + 2] as nat) + 16777216 * (b[at
        + 3] as nat)
}

/// How many entries the header announces: none unless the file starts with
/// the icon signature `00 00 01 00`.
pub open spec fn ico_count(b: Seq<u8>) -> nat {
    if b.len() >= 6 && b[0] == 0 && b[1] == 0 && b[2] == 1 && b[3] == 0 {
        u16_le(b[4], b[5])
    } else {
        0
    }
}

pub open spec fn png_magic() -> Seq<u8> {
    seq![0x89u8, 0x50u8, 0x4eu8, 0x47u8, 0x0du8, 0x0au8, 0x1au8, 0x0au8]
}

/// The entry described by directory record `index`, when the record and its
/// payload lie inside the file and the payload is a PNG.
pub open spec fn ico_entry(b: Seq<u8>, index: int) -> Option<IcoEntry> {
    let start = 6 + 16 * index;
    if start + 16 > b.len() {
        None
    } else {
        let size = u32_le(b, start + 8);
        let offset = u32_le(b, start + 12);
        let px: u32 = if b[start] == 0 {
            256
        } else {
            b[start] as u32
        };
        if offset + size > b.len() || size < 8 || b.subrange(offset as int, (offset + 8) as int) != png_magic() {
            None
        } else {
            Some(IcoEntry { px, offset: offset as usize, len: size as usize })
        }
    }
}

/// The PNG entries among the first `k` directory records, in file order.
pub open spec fn ico_entries_upto(b: Seq<u8>, k: int) -> Seq<IcoEntry>
    decreases k,
{
    if k <= 0 {
        Seq::empty()
    } else {
        match ico_entry(b, k - 1) {
            Some(e) => ico_entries_upto(b, k - 1).push(e),
            None => ico_entries_upto(b, k - 1),
        }
    }
}

/// Every PNG entry of the file, in the order the file stores them.
pub open spec fn ico_entries(b: Seq<u8>) -> Seq<IcoEntry> {
    ico_entries_upto(b, ico_count(b) as int)
}

fn read_u32_le(b: &[u8], at: usize) -> (v: usize)
    requires
        at + 4 <= b@.len(),
    ensures
        v == u32_le(b@, at as int),
{
    let v0 = b[at] as usize;
    let v1 = b[at + 1] as usize;
    let v2 = b[at + 2] as usize;
    let v3 = b[at + 3] as u64;
    assert(v3 * 16777216 <= 255 * 16777216) by (nonlinear_arith)
        requires
            v3 <= 255,
    ;
    let hi = v3 * 16777216;
    let total = (v0 as u64) + 256 * (v1 as u64) + 65536 * (v2 as u64) + hi;
    assert(total < 0x1_0000_0000);
    total as usize
}

fn entry_at(b: &[u8], index: usize) -> (r: Option<IcoEntry>)
    requires
        index < 65536,
    ensures
        r == ico_entry(b@, index as int),
{
    let start = 6 + 16 * index;
    if start + 16 > b.len() {
        return None;
    }
    let size = read_u32_le(b, start + 8);
    let offset = read_u32_le(b, start + 12);
    let px: u32 = if b[start] == 0 {
        256
    } else {
        b[start] as u32
    };
    if offset > b.len() || size > b.len() - offset || size < 8 {
        return None;
    }
    let is_png = b[offset] == 0x89 && b[offset + 1] == 0x50 && b[offset + 2] == 0x4e && b[offset
        + 3] == 0x47 && b[offset + 4] == 0x0d && b[offset + 5] == 0x0a && b[offset + 6] == 0x1a
        && b[offset + 7] == 0x0a;
    if !is_png {
        proof {
            let sub = b@.subrange(offset as int, offset + 8);
            if sub == png_magic() {
                assert(sub[0] == png_magic()[0]);
                assert(sub[1] == png_magic()[1]);
                assert(sub[2] == png_magic()[2]);
                assert(sub[3] == png_magic()[3]);
                assert(sub[4] == png_magic()[4]);
                assert(sub[5] == png_magic()[5]);
                assert(sub[6] == png_magic()[6]);
                assert(sub[7] == png_magic()[7]);
            }
        }
        return None;
    }
    proof {
        assert(b@.subrange(offset as int, offset + 8) =~= png_magic());
    }
    Some(IcoEntry { px, offset, len: size })
}

/// Every PNG-encoded entry in an `.ico` file, in the order the file stores
/// them, so the first one is the entry a build-time decoder would pick.
pub fn ico_entries_of(b: &[u8]) -> (r: Vec<IcoEntry>)
    ensures
        r@ == ico_entries(b@),
{
    let count: usize = if b.len() >= 6 && b[0] == 0 && b[1] == 0 && b[2] == 1 && b[3] == 0 {
        (b[4] as usize) + 256 * (b[5] as usize)
    } else {
        0
    };
    let mut r: Vec<IcoEntry> = Vec::new();
    let mut i: usize = 0;
    while i < count
        invariant
            count == ico_count(b@),
            count < 65536,
            i <= count,
            r@ == ico_entries_upto(b@, i as int),
        decreases count - i,
    {
        if let Some(e) = entry_at(b, i) {
            r.push(e);
        }
        i = i + 1;
    }
    r
}

/// The entry the build-time codegen turned into the runtime icon: the first.
pub fn default_entry_px(b: &[u8]) -> (r: Option<u32>)
    ensures
        r == if ico_entries(b@).len() > 0 {
            Some(ico_entries(b@)[0].px)
        } else {
            None::<u32>
        },
{
    let entries = ico_entries_of(b);
    if entries.len() > 0 {
        Some(entries[0].px)
    } else {
        None
    }
}

/// The sizes of every entry, in file order.
pub fn entry_sizes(b: &[u8]) -> (r: Vec<u32>)
    ensures
        r@ == ico_entries(b@).map_values(|e: IcoEntry| e.px),
{
    let entries = ico_entries_of(b);
    let mut r: Vec<u32> = Vec::new();
    let mut i: usize = 0;
    while i < entries.len()
        invariant
            entries@ == ico_entries(b@),
            i <= entries.len(),
            r@ == entries@.take(i as int).map_values(|e: IcoEntry| e.px),
        decreases entries.len() - i,
    {
        r.push(entries[i].px);
        i = i + 1;
        assert(r@ =~= entries@.take(i as int).map_values(|e: IcoEntry| e.px));
    }
    assert(entries@.take(entries.len() as int) =~= entries@);
    r
}

/// An entry of `px` pixels serves a window whose icons are drawn at `small`
/// and `large`: it is at least the large size, and an exact multiple of the
/// small one.
pub open spec fn serves(px: u32, small: u32, large: u32) -> bool {
    px >= large && small > 0 && px % small == 0
}

/// What the window rule picks for icons drawn at `small` and `large` from
/// `available`, with `default_px` installed: nothing when either size is
/// unknown; the default when it serves or nothing on offer does; otherwise
/// the smallest entry on offer that serves.
pub open spec fn window_rule(
    r: Option<u32>,
    small: u32,
    large: u32,
    available: Seq<u32>,
    default_px: u32,
) -> bool {
    if small == 0 || large == 0 {
        r is None
    } else {
        r matches Some(px) && {
            ||| px == default_px && (serves(default_px, small, large) || forall|i: int|
                0 <= i < available.len() ==> !serves(#[trigger] available[i], small, large))
            ||| (!serves(default_px, small, large) && serves(px, small, large) && available.contains(
                px,
            ) && forall|i: int|
                0 <= i < available.len() && serves(#[trigger] available[i], small, large) ==> px
                    <= available[i])
        }
    }
}

/// The window rule, deliberately conservative: the bundled default when it
/// already serves, otherwise the smallest entry that does, otherwise the
/// default. `None` when either size is unknown (zero).
pub fn window_pick(small: u32, large: u32, available: &[u32], default_px: u32) -> (r: Option<u32>)
    ensures
        window_rule(r, small, large, available@, default_px),
{
    if small == 0 || large == 0 {
        return None;
    }
    if default_px >= large && default_px % small == 0 {
        return Some(default_px);
    }
    let mut best: Option<u32> = None;
    let mut i: usize = 0;
    while i < available.len()
        invariant
            small != 0,
            large != 0,
            i <= available@.len(),
            match best {
                Some(b) => serves(b, small, large) && available@.contains(b) && forall|j: int|
                    0 <= j < i && serves(#[trigger] available@[j], small, large) ==> b <= available@[j],
                None => forall|j: int| 0 <= j < i ==> !serves(#[trigger] available@[j], small, large),
            },
        decreases available@.len() - i,
    {
        let px = available[i];
        if px >= large && px % small == 0 {
            match best {
                Some(b) => {
                    if px < b {
                        best = Some(px);
                    }
                },
                None => {
                    best = Some(px);
                },
            }
        }
        i = i + 1;
    }
    match best {
        Some(b) => Some(b),
        None => Some(default_px),
    }
}

/// The tray rule: the exact size when it exists, the next size up when it
/// does not, and the largest raster on offer only when the ask is bigger than
/// anything drawn. `None` when the wanted size is unknown (zero) or there is
/// nothing to pick from.
pub fn tray_pick(want: u32, available: &[u32]) -> (r: Option<u32>)
    ensures
        (want == 0 || available@.len() == 0) ==> r is None,
        (want != 0 && available@.len() > 0) ==> (r matches Some(px) && available@.contains(px) && {
            ||| px >= want && forall|i: int|
                0 <= i < available@.len() && #[trigger] available@[i] >= want ==> px <= available@[i]
            ||| (forall|i: int| 0 <= i < available@.len() ==> #[trigger] available@[i] < want)
                && forall|i: int| 0 <= i < available@.len() ==> #[trigger] available@[i] <= px
        }),
{
    if want == 0 || available.len() == 0 {
        return None;
    }
    let mut above: Option<u32> = None;
    let mut largest: u32 = available[0];
    let mut i: usize = 0;
    while i < available.len()
        invariant
            i <= available@.len(),
            available@.len() > 0,
            available@.contains(largest),
            forall|j: int| 0 <= j < i ==> #[trigger] available@[j] <= largest,
            match above {
                Some(a) => a >= want && available@.contains(a) && forall|j: int|
                    0 <= j < i && #[trigger] available@[j] >= want ==> a <= available@[j],
                None => forall|j: int| 0 <= j < i ==> #[trigger] available@[j] < want,
            },
        decreases available@.len() - i,
    {
        let px = available[i];
        if px > largest {
            largest = px;
        }
        if px >= want {
            match above {
                Some(a) => {
                    if px < a {
                        above = Some(px);
                    }
                },
                None => {
                    above = Some(px);
                },
            }
        }
        i = i + 1;
    }
    match above {
        Some(a) => Some(a),
        None => Some(largest),
    }
}

/// Which entry the window icon should use for the icon sizes `small` and
/// `large`, over the entries of the `.ico` file `ico`.
pub fn window_entry_for(small: u32, large: u32, ico: &[u8]) -> (r: Option<u32>)
    ensures
        ({
            let sizes = ico_entries(ico@).map_values(|e: IcoEntry| e.px);
            if sizes.len() == 0 {
                r is None
            } else {
                window_rule(r, small, large, sizes, sizes[0])
            }
        }),
{
    let sizes = entry_sizes(ico);
    if sizes.len() == 0 {
        return None;
    }
    let default_px = sizes[0];
    window_pick(small, large, sizes.as_slice(), default_px)
}

/// What the window and the tray icons are currently drawn from; zero means
/// "not recorded yet".
#[derive(Debug, Clone, Copy, Default, PartialEq, Eq, Structural)]
pub struct IconCache {
    pub window_px: u32,
    pub tray_px: u32,
}

/// The size of the entry the window icon is drawn from, resolving "not
/// recorded" to the entry the build installed.
pub fn window_icon_px(cache: &IconCache, ico: &[u8]) -> (px: u32)
    ensures
        cache.window_px != 0 ==> px == cache.window_px,
        cache.window_px == 0 ==> px == if ico_entries(ico@).len() > 0 {
            ico_entries(ico@)[0].px
        } else {
            0
        },
{
    if cache.window_px != 0 {
        return cache.window_px;
    }
    match default_entry_px(ico) {
        Some(px) => px,
        None => 0,
    }
}

/// Record what the window icon was just set to.
pub fn set_window_icon_px(cache: &mut IconCache, px: u32)
    ensures
        *final(cache) == (IconCache { window_px: px, ..*old(cache) }),
{
    cache.window_px = px;
}

/// The size the tray artifact is being picked for; zero when not asked yet.
pub fn tray_icon_px(cache: &IconCache) -> (px: u32)
    ensures
        px == cache.tray_px,
{
    cache.tray_px
}

/// Record the size the notification area asks for.
pub fn set_tray_icon_px(cache: &mut IconCache, px: u32)
    ensures
        *final(cache) == (IconCache { tray_px: px, ..*old(cache) }),
{
    cache.tray_px = px;
}

/// The window pick never costs the large icon anything: whenever both sizes
/// are known, what is picked is either the installed default or an entry at
/// least as large as the large icon and an exact multiple of the small one.
pub proof fn law_window_pick_is_default_or_better(
    r: Option<u32>,
    small: u32,
    large: u32,
    available: Seq<u32>,
    default_px: u32,
)
    requires
        small != 0,
        large != 0,
        window_rule(r, small, large, available, default_px),
    ensures
        r matches Some(px) && (px == default_px || (px >= large && px % small == 0)),
{
}

/// Every entry the reader reports lies inside the file and is a PNG: its
/// payload starts with the PNG signature, so an entry that could not be
/// decoded never reaches a pick.
pub proof fn law_entries_are_pngs_inside_the_file(b: Seq<u8>, i: int)
    requires
        0 <= i < ico_entries(b).len(),
    ensures
        ico_entries(b)[i].offset + ico_entries(b)[i].len <= b.len(),
        ico_entries(b)[i].len >= 8,
        b.subrange(ico_entries(b)[i].offset as int, ico_entries(b)[i].offset + 8) == png_magic(),
{
    lemma_entries_upto_inside(b, ico_count(b) as int, i);
}

proof fn lemma_entries_upto_inside(b: Seq<u8>, k: int, i: int)
    requires
        0 <= i < ico_entries_upto(b, k).len(),
    ensures
        ico_entries_upto(b, k)[i].offset + ico_entries_upto(b, k)[i].len <= b.len(),
        ico_entries_upto(b, k)[i].len >= 8,
        b.subrange(
            ico_entries_upto(b, k)[i].offset as int,
            ico_entries_upto(b, k)[i].offset + 8,
        ) == png_magic(),
    decreases k,
{
    if k > 0 {
        let prev = ico_entries_upto(b, k - 1);
        match ico_entry(b, k - 1) {
            Some(e) => {
                if i < prev.len() {
                    lemma_entries_upto_inside(b, k - 1, i);
                }
            },
            None => {
                lemma_entries_upto_inside(b, k - 1, i);
            },
        }
    }
}

} // verus!
