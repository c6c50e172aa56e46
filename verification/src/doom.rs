//! Colour handling and input mapping for running DOOM: reading the PLAYPAL
//! palette out of a WAD, matching 24-bit colours to the nearest palette
//! entry, turning an RGBA frame into palette indices, and turning held keys
//! into a movement command.
use vstd::prelude::*;

verus! {

/// Number of entries in a DOOM palette.
pub const PALETTE_LEN: usize = 256;
/// Bytes in the PLAYPAL lump's first palette (256 RGB triples).
pub const PLAYPAL_BYTES: usize = 768;
/// Entries in the colour cache: one per 6-bit red, green and blue.
pub const COLOR_CACHE_LEN: usize = 262144;
/// Pixels in a 320x200 frame.
pub const FRAME_PIXELS: usize = 64000;

/// The little-endian 32-bit number in `s[off..off + 4]`.
pub open spec fn le_u32(s: Seq<u8>, off: int) -> int {
    s[off] + s[off + 1] * 256 + s[off + 2] * 65536 + s[off + 3] * 16777216
}

/// The number of lumps a WAD header declares.
pub open spec fn lump_count(wad: Seq<u8>) -> int {
    le_u32(wad, 4)
}

/// Where a WAD's lump directory starts.
pub open spec fn directory_offset(wad: Seq<u8>) -> int {
    le_u32(wad, 8)
}

/// Where the `i`-th entry of the directory starts; an entry is 16 bytes:
/// lump offset, lump size, eight name bytes.
pub open spec fn entry_offset(wad: Seq<u8>, i: int) -> int {
    directory_offset(wad) + 16 * i
}

/// The seven bytes `PLAYPAL`.
pub open spec fn playpal_name() -> Seq<u8> {
    seq![0x50u8, 0x4c, 0x41, 0x59, 0x50, 0x41, 0x4c]
}

/// Whether the name of directory entry `i` starts with `PLAYPAL`.
pub open spec fn entry_is_playpal(wad: Seq<u8>, i: int) -> bool {
    wad.subrange(entry_offset(wad, i) + 8, entry_offset(wad, i) + 15) == playpal_name()
}

/// The offset of the PLAYPAL lump named by the first matching directory
/// entry at or after entry `i`, if any entry matches.
pub open spec fn playpal_offset_from(wad: Seq<u8>, i: int) -> Option<int>
    decreases lump_count(wad) - i,
{
    if i < 0 || i >= lump_count(wad) {
        None
    } else if entry_is_playpal(wad, i) {
        Some(le_u32(wad, entry_offset(wad, i)))
    } else {
        playpal_offset_from(wad, i + 1)
    }
}

/// Whether the search for PLAYPAL from entry `i` on reads only bytes inside
/// the WAD: every entry it looks at, and the palette it finds, lie inside.
pub open spec fn playpal_search_in_bounds_from(wad: Seq<u8>, i: int) -> bool
    decreases lump_count(wad) - i,
{
    if i < 0 || i >= lump_count(wad) {
        true
    } else if entry_offset(wad, i) + 16 > wad.len() {
        false
    } else if entry_is_playpal(wad, i) {
        le_u32(wad, entry_offset(wad, i)) + 768 <= wad.len()
    } else {
        playpal_search_in_bounds_from(wad, i + 1)
    }
}

/// Whether looking up PLAYPAL in `wad` reads only bytes inside it.
pub open spec fn playpal_search_in_bounds(wad: Seq<u8>) -> bool {
    wad.len() >= 12 && playpal_search_in_bounds_from(wad, 0)
}

/// The offset of the PLAYPAL lump that the WAD's directory names first.
pub open spec fn playpal_offset(wad: Seq<u8>) -> Option<int> {
    playpal_offset_from(wad, 0)
}

fn read_le_u32(wad: &[u8], off: usize) -> (v: u64)
    requires
        off + 4 <= wad@.len(),
    ensures
        v == le_u32(wad@, off as int),
        v < 0x1_0000_0000,
{
    (wad[off] as u64) + (wad[off + 1] as u64) * 256 + (wad[off + 2] as u64) * 65536 + (wad[off
        + 3] as u64) * 16777216
}

fn name_is_playpal(wad: &[u8], start: usize) -> (b: bool)
    requires
        start + 7 <= wad@.len(),
    ensures
        b == (wad@.subrange(start as int, start + 7) == playpal_name()),
{
    let matches = wad[start] == 0x50 && wad[start + 1] == 0x4c && wad[start + 2] == 0x41 && wad[start
        + 3] == 0x59 && wad[start + 4] == 0x50 && wad[start + 5] == 0x41 && wad[start + 6] == 0x4c;
    proof {
        if matches {
            assert(wad@.subrange(start as int, start + 7) =~= playpal_name());
        } else {
            if wad@.subrange(start as int, start + 7) == playpal_name() {
                assert(wad@.subrange(start as int, start + 7)[0] == wad@[start as int]);
                assert(wad@.subrange(start as int, start + 7)[1] == wad@[start + 1]);
                assert(wad@.subrange(start as int, start + 7)[2] == wad@[start + 2]);
                assert(wad@.subrange(start as int, start + 7)[3] == wad@[start + 3]);
                assert(wad@.subrange(start as int, start + 7)[4] == wad@[start + 4]);
                assert(wad@.subrange(start as int, start + 7)[5] == wad@[start + 5]);
                assert(wad@.subrange(start as int, start + 7)[6] == wad@[start + 6]);
            }
        }
    }
    matches
}

/// Whether [`find_playpal`] can look `wad` up without reading past its end.
pub fn playpal_lookup_in_bounds(wad: &[u8]) -> (ok: bool)
    ensures
        ok == playpal_search_in_bounds(wad@),
{
    if wad.len() < 12 {
        return false;
    }
    let num_lumps = read_le_u32(wad, 4);
    let dir_offset = read_le_u32(wad, 8);
    let len = wad.len();
    let mut i: u64 = 0;
    while i < num_lumps
        invariant
            wad@.len() >= 12,
            len == wad@.len(),
            num_lumps == lump_count(wad@),
            dir_offset == directory_offset(wad@),
            i <= num_lumps,
            playpal_search_in_bounds(wad@) == playpal_search_in_bounds_from(wad@, i as int),
        decreases num_lumps - i,
    {
        let entry = dir_offset + i * 16;
        if entry + 16 > len as u64 {
            return false;
        }
        let e = entry as usize;
        if name_is_playpal(wad, e + 8) {
            let lump = read_le_u32(wad, e);
            return lump + 768 <= len as u64;
        }
        i = i + 1;
    }
    true
}

/// The 768 bytes of the first palette in the WAD's PLAYPAL lump, or `None`
/// when no directory entry is named PLAYPAL. Entries are searched in
/// directory order and the first match wins.
pub fn find_playpal(wad: &[u8]) -> (pal: Option<&[u8]>)
    requires
        playpal_search_in_bounds(wad@),
    ensures
        match pal {
            None => playpal_offset(wad@) is None,
            Some(p) => playpal_offset(wad@) is Some && p@.len() == 768 && p@ == wad@.subrange(
                playpal_offset(wad@)->0,
                playpal_offset(wad@)->0 + 768,
            ),
        },
{
    let num_lumps = read_le_u32(wad, 4);
    let dir_offset = read_le_u32(wad, 8);
    let len = wad.len();
    let mut i: u64 = 0;
    while i < num_lumps
        invariant
            wad@.len() >= 12,
            len == wad@.len(),
            num_lumps == lump_count(wad@),
            dir_offset == directory_offset(wad@),
            i <= num_lumps,
            playpal_search_in_bounds_from(wad@, i as int),
            playpal_offset(wad@) == playpal_offset_from(wad@, i as int),
        decreases num_lumps - i,
    {
        let entry = dir_offset + i * 16;
        let e = entry as usize;
        if name_is_playpal(wad, e + 8) {
            let lump = read_le_u32(wad, e) as usize;
            return Some(&wad[lump..lump + 768]);
        }
        i = i + 1;
    }
    None
}

/// The squared distance between two colours.
pub open spec fn color_distance(r: u8, g: u8, b: u8, p: (u8, u8, u8)) -> int {
    (r - p.0) * (r - p.0) + (g - p.1) * (g - p.1) + (b - p.2) * (b - p.2)
}

/// Whether `idx` is the first entry of `pal` that lies nearest to
/// (`r`, `g`, `b`): no entry is nearer and every earlier entry is farther.
pub open spec fn is_nearest_index(pal: Seq<(u8, u8, u8)>, r: u8, g: u8, b: u8, idx: int) -> bool {
    &&& 0 <= idx < pal.len()
    &&& forall|j: int|
        0 <= j < pal.len() ==> color_distance(r, g, b, pal[idx]) <= color_distance(r, g, b, #[trigger] pal[j])
    &&& forall|j: int|
        0 <= j < idx ==> color_distance(r, g, b, pal[idx]) < color_distance(r, g, b, #[trigger] pal[j])
}

fn distance(r: u8, g: u8, b: u8, p: (u8, u8, u8)) -> (d: u32)
    ensures
        d == color_distance(r, g, b, p),
        d <= 195075,
{
    let dr = r as i32 - p.0 as i32;
    let dg = g as i32 - p.1 as i32;
    let db = b as i32 - p.2 as i32;
    assert(dr * dr <= 65025 && 0 <= dr * dr) by (nonlinear_arith)
        requires
            -255 <= dr <= 255,
    ;
    assert(dg * dg <= 65025 && 0 <= dg * dg) by (nonlinear_arith)
        requires
            -255 <= dg <= 255,
    ;
    assert(db * db <= 65025 && 0 <= db * db) by (nonlinear_arith)
        requires
            -255 <= db <= 255,
    ;
    (dr * dr + dg * dg + db * db) as u32
}

/// The index of the first palette entry nearest to (`r`, `g`, `b`) by
/// squared RGB distance.
pub fn nearest_palette_index(r: u8, g: u8, b: u8, pal: &[(u8, u8, u8); 256]) -> (idx: u8)
    ensures
        is_nearest_index(pal@, r, g, b, idx as int),
{
    let mut best_index: u8 = 0;
    let mut best_distance: u32 = u32::MAX;
    let mut i: usize = 0;
    while i < PALETTE_LEN
        invariant
            i <= 256,
            pal@.len() == 256,
            i == 0 ==> best_distance == u32::MAX && best_index == 0,
            i > 0 ==> best_index < i && best_distance == color_distance(r, g, b, pal@[best_index as int]),
            forall|j: int| 0 <= j < i ==> best_distance <= color_distance(r, g, b, #[trigger] pal@[j]),
            forall|j: int| 0 <= j < best_index ==> best_distance < color_distance(r, g, b, #[trigger] pal@[j]),
        decreases 256 - i,
    {
        let distance = distance(r, g, b, pal[i]);
        if distance < best_distance {
            best_distance = distance;
            best_index = i as u8;
        }
        i = i + 1;
    }
    best_index
}

/// The colour-cache slot of a colour: its red, green and blue reduced to six
/// bits each, red highest.
pub open spec fn cache_slot(r: u8, g: u8, b: u8) -> int {
    (r / 4) * 4096 + (g / 4) * 64 + (b / 4)
}

/// What the PLAYPAL lump sets up: the palette, the values for the VGA DAC
/// (six bits per channel), and the nearest-entry cache.
pub struct Palette {
    /// The 256 palette entries.
    pub rgb: [(u8, u8, u8); 256],
    /// Red, green and blue of each entry, in entry order, each reduced to
    /// the DAC's six bits.
    pub dac: Vec<u8>,
    /// For each 6-bit (red, green, blue), the nearest palette entry to
    /// (red * 4, green * 4, blue * 4); the slot is red * 4096 + green * 64 + blue.
    pub cache: Vec<u8>,
}

/// The palette that the 768 bytes of a PLAYPAL lump describe.
pub open spec fn palette_from_bytes(bytes: Seq<u8>) -> Seq<(u8, u8, u8)> {
    Seq::new(256, |i: int| (bytes[3 * i], bytes[3 * i + 1], bytes[3 * i + 2]))
}

/// The palette entries of a PLAYPAL lump.
pub fn palette_from_playpal(bytes: &[u8]) -> (pal: [(u8, u8, u8); 256])
    requires
        bytes@.len() >= 768,
    ensures
        pal@ == palette_from_bytes(bytes@),
{
    let mut pal = [(0u8, 0u8, 0u8); 256];
    let mut i: usize = 0;
    while i < PALETTE_LEN
        invariant
            i <= 256,
            bytes@.len() >= 768,
            pal@.len() == 256,
            forall|j: int| 0 <= j < i ==> pal@[j] == palette_from_bytes(bytes@)[j],
        decreases 256 - i,
    {
        pal[i] = (bytes[i * 3], bytes[i * 3 + 1], bytes[i * 3 + 2]);
        i = i + 1;
    }
    assert(pal@ == palette_from_bytes(bytes@));
    pal
}

/// The VGA DAC values of a palette: red, green, blue of each entry in turn,
/// each divided by four.
pub fn dac_values(pal: &[(u8, u8, u8); 256]) -> (dac: Vec<u8>)
    ensures
        dac@.len() == 768,
        forall|i: int|
            0 <= i < 256 ==> dac@[3 * i] == pal@[i].0 / 4 && dac@[3 * i + 1] == pal@[i].1 / 4 && dac@[3
                * i + 2] == pal@[i].2 / 4,
{
    let mut dac: Vec<u8> = Vec::new();
    let mut i: usize = 0;
    while i < PALETTE_LEN
        invariant
            i <= 256,
            pal@.len() == 256,
            dac@.len() == 3 * i,
            forall|j: int|
                0 <= j < i ==> dac@[3 * j] == pal@[j].0 / 4 && dac@[3 * j + 1] == pal@[j].1 / 4 && dac@[3
                    * j + 2] == pal@[j].2 / 4,
        decreases 256 - i,
    {
        let (r, g, b) = pal[i];
        dac.push(r / 4);
        dac.push(g / 4);
        dac.push(b / 4);
        i = i + 1;
    }
    dac
}

/// The nearest-entry cache of a palette: slot `red * 4096 + green * 64 +
/// blue`, for 6-bit channels, holds the first entry nearest to
/// (red * 4, green * 4, blue * 4).
pub fn build_color_cache(pal: &[(u8, u8, u8); 256]) -> (cache: Vec<u8>)
    ensures
        cache@.len() == COLOR_CACHE_LEN,
        forall|r: int, g: int, b: int|
            0 <= r < 64 && 0 <= g < 64 && 0 <= b < 64 ==> is_nearest_index(
                pal@,
                (r * 4) as u8,
                (g * 4) as u8,
                (b * 4) as u8,
                #[trigger] cache@[r * 4096 + g * 64 + b] as int,
            ),
{
    let mut cache: Vec<u8> = Vec::new();
    let mut r: u8 = 0;
    while r < 64
        invariant
            r <= 64,
            cache@.len() == r * 4096,
            forall|rr: int, g: int, b: int|
                0 <= rr < r && 0 <= g < 64 && 0 <= b < 64 ==> is_nearest_index(
                    pal@,
                    (rr * 4) as u8,
                    (g * 4) as u8,
                    (b * 4) as u8,
                    #[trigger] cache@[rr * 4096 + g * 64 + b] as int,
                ),
        decreases 64 - r,
    {
        let mut g: u8 = 0;
        while g < 64
            invariant
                r < 64,
                g <= 64,
                cache@.len() == r * 4096 + g * 64,
                forall|rr: int, gg: int, b: int|
                    0 <= rr < r && 0 <= gg < 64 && 0 <= b < 64 ==> is_nearest_index(
                        pal@,
                        (rr * 4) as u8,
                        (gg * 4) as u8,
                        (b * 4) as u8,
                        #[trigger] cache@[rr * 4096 + gg * 64 + b] as int,
                    ),
                forall|gg: int, b: int|
                    0 <= gg < g && 0 <= b < 64 ==> is_nearest_index(
                        pal@,
                        (r * 4) as u8,
                        (gg * 4) as u8,
                        (b * 4) as u8,
                        #[trigger] cache@[r * 4096 + gg * 64 + b] as int,
                    ),
            decreases 64 - g,
        {
            let mut b: u8 = 0;
            while b < 64
                invariant
                    r < 64,
                    g < 64,
                    b <= 64,
                    cache@.len() == r * 4096 + g * 64 + b,
                    forall|rr: int, gg: int, bb: int|
                        0 <= rr < r && 0 <= gg < 64 && 0 <= bb < 64 ==> is_nearest_index(
                            pal@,
                            (rr * 4) as u8,
                            (gg * 4) as u8,
                            (bb * 4) as u8,
                            #[trigger] cache@[rr * 4096 + gg * 64 + bb] as int,
                        ),
                    forall|gg: int, bb: int|
                        0 <= gg < g && 0 <= bb < 64 ==> is_nearest_index(
                            pal@,
                            (r * 4) as u8,
                            (gg * 4) as u8,
                            (bb * 4) as u8,
                            #[trigger] cache@[r * 4096 + gg * 64 + bb] as int,
                        ),
                    forall|bb: int|
                        0 <= bb < b ==> is_nearest_index(
                            pal@,
                            (r * 4) as u8,
                            (g * 4) as u8,
                            (bb * 4) as u8,
                            #[trigger] cache@[r * 4096 + g * 64 + bb] as int,
                        ),
                decreases 64 - b,
            {
                let idx = nearest_palette_index(r * 4, g * 4, b * 4, pal);
                cache.push(idx);
                b = b + 1;
            }
            g = g + 1;
        }
        r = r + 1;
    }
    cache
}

/// The palette, DAC values and colour cache that the WAD's PLAYPAL lump
/// sets up, or `None` when the WAD names no PLAYPAL lump.
pub fn init_palette(wad: &[u8]) -> (setup: Option<Palette>)
    requires
        playpal_search_in_bounds(wad@),
    ensures
        match setup {
            None => playpal_offset(wad@) is None,
            Some(p) => {
                &&& playpal_offset(wad@) is Some
                &&& p.rgb@ == palette_from_bytes(
                    wad@.subrange(playpal_offset(wad@)->0, playpal_offset(wad@)->0 + 768),
                )
                &&& p.dac@.len() == 768
                &&& forall|i: int|
                    0 <= i < 256 ==> p.dac@[3 * i] == p.rgb@[i].0 / 4 && p.dac@[3 * i + 1] == p.rgb@[i].1
                        / 4 && p.dac@[3 * i + 2] == p.rgb@[i].2 / 4
                &&& p.cache@.len() == COLOR_CACHE_LEN
                &&& forall|r: int, g: int, b: int|
                    0 <= r < 64 && 0 <= g < 64 && 0 <= b < 64 ==> is_nearest_index(
                        p.rgb@,
                        (r * 4) as u8,
                        (g * 4) as u8,
                        (b * 4) as u8,
                        #[trigger] p.cache@[r * 4096 + g * 64 + b] as int,
                    )
            },
        },
{
    match find_playpal(wad) {
        None => None,
        Some(bytes) => {
            let rgb = palette_from_playpal(bytes);
            let dac = dac_values(&rgb);
            let cache = build_color_cache(&rgb);
            Some(Palette { rgb, dac, cache })
        },
    }
}

/// Converts a 320x200 RGBA frame into palette indices through the colour
/// cache: pixel `i` becomes the cache entry for the slot of its red, green
/// and blue.
pub fn blit_rgba_to_vga(rgba: &[u8], cache: &[u8]) -> (frame: Vec<u8>)
    requires
        rgba@.len() >= 4 * FRAME_PIXELS,
        cache@.len() == COLOR_CACHE_LEN,
    ensures
        frame@.len() == FRAME_PIXELS,
        forall|i: int|
            0 <= i < FRAME_PIXELS ==> #[trigger] frame@[i] == cache@[cache_slot(
                rgba@[4 * i],
                rgba@[4 * i + 1],
                rgba@[4 * i + 2],
            )],
{
    let mut frame: Vec<u8> = Vec::new();
    let mut i: usize = 0;
    while i < FRAME_PIXELS
        invariant
            i <= FRAME_PIXELS,
            rgba@.len() >= 4 * FRAME_PIXELS,
            cache@.len() == COLOR_CACHE_LEN,
            frame@.len() == i,
            forall|j: int|
                0 <= j < i ==> #[trigger] frame@[j] == cache@[cache_slot(
                    rgba@[4 * j],
                    rgba@[4 * j + 1],
                    rgba@[4 * j + 2],
                )],
        decreases FRAME_PIXELS - i,
    {
        let r = rgba[i * 4];
        let g = rgba[i * 4 + 1];
        let b = rgba[i * 4 + 2];
        let slot = (r / 4) as usize * 4096 + (g / 4) as usize * 64 + (b / 4) as usize;
        frame.push(cache[slot]);
        i = i + 1;
    }
    frame
}

/// Which of the keys that steer the player are held down.
#[derive(Copy, Clone, Debug)]
pub struct DoomKeys {
    /// W
    pub forward: bool,
    /// S
    pub backward: bool,
    /// A
    pub strafe_left: bool,
    /// D
    pub strafe_right: bool,
    /// Left arrow
    pub turn_left: bool,
    /// Right arrow
    pub turn_right: bool,
    /// Space
    pub use_key: bool,
    /// X
    pub fire: bool,
}

/// One tic's movement request for the player.
#[derive(Copy, Clone, Debug)]
pub struct MoveCommand {
    pub forward_move: i8,
    pub side_move: i8,
    pub angle_turn: i16,
    /// The use button (doors, switches).
    pub use_pressed: bool,
    /// The attack button.
    pub attack: bool,
}

/// The movement request for the held keys. Of two opposite keys held
/// together, backward beats forward, strafing right beats strafing left,
/// and turning right beats turning left.
pub fn player_command(keys: DoomKeys) -> (cmd: MoveCommand)
    ensures
        cmd.forward_move == if keys.backward { -25i8 } else if keys.forward { 25i8 } else { 0i8 },
        cmd.side_move == if keys.strafe_right { 20i8 } else if keys.strafe_left { -20i8 } else { 0i8 },
        cmd.angle_turn == if keys.turn_right { -512i16 } else if keys.turn_left { 512i16 } else { 0i16 },
        cmd.use_pressed == keys.use_key,
        cmd.attack == keys.fire,
{
    let mut cmd = MoveCommand { forward_move: 0, side_move: 0, angle_turn: 0, use_pressed: false, attack: false };
    if keys.forward {
        cmd.forward_move = 25;
    }
    if keys.backward {
        cmd.forward_move = -25;
    }
    if keys.strafe_left {
        cmd.side_move = -20;
    }
    if keys.strafe_right {
        cmd.side_move = 20;
    }
    if keys.turn_left {
        cmd.angle_turn = 512;
    }
    if keys.turn_right {
        cmd.angle_turn = -512;
    }
    if keys.use_key {
        cmd.use_pressed = true;
    }
    if keys.fire {
        cmd.attack = true;
    }
    cmd
}

/// At most one palette index is the first nearest to a colour: the result
/// of [`nearest_palette_index`] is determined by the palette and the colour.
pub proof fn lemma_nearest_index_unique(pal: Seq<(u8, u8, u8)>, r: u8, g: u8, b: u8, i: int, j: int)
    requires
        is_nearest_index(pal, r, g, b, i),
        is_nearest_index(pal, r, g, b, j),
    ensures
        i == j,
{
    if i < j {
        assert(color_distance(r, g, b, pal[j]) <= color_distance(r, g, b, pal[i]));
    } else if j < i {
        assert(color_distance(r, g, b, pal[i]) <= color_distance(r, g, b, pal[j]));
    }
}

} // verus!
