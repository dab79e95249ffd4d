//! Deterministic 16x16 material layers and CPU mip generation.

use vstd::prelude::*;
use crate::mips::{make_mips, mip_width, mips_of, Mip};
use crate::text::str_eq;

verus! {

pub const MATERIAL_SIZE: usize = 16;
pub const MATERIAL_MIPS: usize = 5;
pub const MATERIAL_LAYER_CAP: usize = 256;

/// The per-texel hash shared by every procedural layer.
pub open spec fn hash_spec(x: usize, y: usize, layer: u64) -> u8 {
    let n0 = (x as u64).wrapping_mul(0x9e3779b97f4a7c15u64).wrapping_add(
        (y as u64).wrapping_mul(0xbf58476d1ce4e5b9u64),
    ).wrapping_add(layer);
    let n1 = n0 ^ (n0 >> 30u64);
    (n1.wrapping_mul(0xbf58476d1ce4e5b9u64) >> 24u64) as u8
}

pub fn hash(x: usize, y: usize, layer: u64) -> (h: u8)
    ensures
        h == hash_spec(x, y, layer),
{
    let mut n = (x as u64).wrapping_mul(0x9e3779b97f4a7c15).wrapping_add(
        (y as u64).wrapping_mul(0xbf58476d1ce4e5b9),
    ).wrapping_add(layer);
    n ^= n >> 30;
    (n.wrapping_mul(0xbf58476d1ce4e5b9) >> 24) as u8
}

// ---------------------------------------------------------------------------
// Name classification.

pub open spec fn is_wood_name(n: Seq<char>) -> bool {
    n == "wood"@ || n == "log_side"@ || n == "log_top"@ || n == "planks"@
}

fn is_wood(name: &str) -> (r: bool)
    ensures
        r == is_wood_name(name@),
{
    str_eq(name, "wood") || str_eq(name, "log_side") || str_eq(name, "log_top") || str_eq(
        name,
        "planks",
    )
}

pub open spec fn is_light_name(n: Seq<char>) -> bool {
    n == "emissive"@ || n == "torch"@ || n == "glowstone"@ || n == "sea_lantern"@ || n
        == "warm_lamp"@ || n == "cold_lamp"@ || n == "glow_panel"@
}

fn is_light(name: &str) -> (r: bool)
    ensures
        r == is_light_name(name@),
{
    str_eq(name, "emissive") || str_eq(name, "torch") || str_eq(name, "glowstone") || str_eq(
        name,
        "sea_lantern",
    ) || str_eq(name, "warm_lamp") || str_eq(name, "cold_lamp") || str_eq(name, "glow_panel")
}

pub open spec fn is_grey_stone_name(n: Seq<char>) -> bool {
    n == "gravel"@ || n == "polished_stone"@ || n == "stone_bricks"@ || n == "mossy_stone_bricks"@
        || n == "chiseled_stone"@ || n == "slate"@ || n == "polished_slate"@ || n == "basalt"@
        || n == "polished_basalt"@ || n == "limestone"@ || n == "limestone_bricks"@ || n
        == "marble"@ || n == "marble_tiles"@ || n == "obsidian"@ || n == "prismarine"@ || n
        == "dark_prismarine"@
}

fn is_grey_stone(name: &str) -> (r: bool)
    ensures
        r == is_grey_stone_name(name@),
{
    str_eq(name, "gravel") || str_eq(name, "polished_stone") || str_eq(name, "stone_bricks")
        || str_eq(name, "mossy_stone_bricks") || str_eq(name, "chiseled_stone") || str_eq(
        name,
        "slate",
    ) || str_eq(name, "polished_slate") || str_eq(name, "basalt") || str_eq(
        name,
        "polished_basalt",
    ) || str_eq(name, "limestone") || str_eq(name, "limestone_bricks") || str_eq(name, "marble")
        || str_eq(name, "marble_tiles") || str_eq(name, "obsidian") || str_eq(name, "prismarine")
        || str_eq(name, "dark_prismarine")
}

pub open spec fn is_dark_wood_name(n: Seq<char>) -> bool {
    n == "birch_log"@ || n == "spruce_log"@ || n == "dark_oak_log"@ || n == "birch_planks"@ || n
        == "spruce_planks"@ || n == "dark_oak_planks"@ || n == "bookshelf"@ || n == "crate"@ || n
        == "barrel"@
}

fn is_dark_wood(name: &str) -> (r: bool)
    ensures
        r == is_dark_wood_name(name@),
{
    str_eq(name, "birch_log") || str_eq(name, "spruce_log") || str_eq(name, "dark_oak_log")
        || str_eq(name, "birch_planks") || str_eq(name, "spruce_planks") || str_eq(
        name,
        "dark_oak_planks",
    ) || str_eq(name, "bookshelf") || str_eq(name, "crate") || str_eq(name, "barrel")
}

pub open spec fn is_leaves_name(n: Seq<char>) -> bool {
    n == "leaves"@ || n == "birch_leaves"@ || n == "spruce_leaves"@ || n == "dark_oak_leaves"@
}

fn is_leaves(name: &str) -> (r: bool)
    ensures
        r == is_leaves_name(name@),
{
    str_eq(name, "leaves") || str_eq(name, "birch_leaves") || str_eq(name, "spruce_leaves")
        || str_eq(name, "dark_oak_leaves")
}

pub open spec fn is_metal_panel_name(n: Seq<char>) -> bool {
    n == "metal_panel"@ || n == "rusted_metal"@ || n == "copper"@ || n == "weathered_copper"@
}

fn is_metal_panel(name: &str) -> (r: bool)
    ensures
        r == is_metal_panel_name(name@),
{
    str_eq(name, "metal_panel") || str_eq(name, "rusted_metal") || str_eq(name, "copper")
        || str_eq(name, "weathered_copper")
}

/// The base albedo colour of a named layer.
pub open spec fn albedo_color_spec(n: Seq<char>) -> (u8, u8, u8) {
    if n == "stone"@ {
        (125, 125, 125)
    } else if n == "brick"@ {
        (150, 84, 66)
    } else if is_wood_name(n) {
        (157, 127, 78)
    } else if n == "metal"@ || n == "cobble"@ {
        (190, 198, 210)
    } else if n == "gold"@ || n == "sand"@ {
        (220, 170, 42)
    } else if n == "emissive"@ || n == "torch"@ || n == "glowstone"@ || n == "warm_lamp"@ || n
        == "glow_panel"@ {
        (240, 90, 30)
    } else if n == "sea_lantern"@ || n == "cold_lamp"@ {
        (120, 220, 240)
    } else if n == "water"@ {
        (63, 118, 228)
    } else if is_leaves_name(n) {
        (72, 132, 61)
    } else if n == "ice"@ || n == "packed_ice"@ {
        (142, 205, 232)
    } else if n == "dirt"@ || n == "dirt_path"@ || n == "mud"@ {
        (134, 96, 67)
    } else if is_grey_stone_name(n) {
        (125, 125, 125)
    } else if n == "sandstone"@ || n == "cut_sandstone"@ || n == "red_sandstone"@ || n
        == "hay_bale"@ {
        (190, 166, 63)
    } else if is_dark_wood_name(n) {
        (145, 98, 52)
    } else if n == "quartz"@ || n == "quartz_tiles"@ || n == "white_concrete"@ {
        (208, 210, 208)
    } else if n == "light_gray_concrete"@ {
        (180, 182, 182)
    } else if n == "gray_concrete"@ {
        (128, 130, 132)
    } else if n == "black_concrete"@ {
        (38, 40, 44)
    } else if n == "brown_concrete"@ {
        (112, 72, 48)
    } else if n == "red_concrete"@ {
        (170, 52, 45)
    } else if n == "orange_concrete"@ {
        (220, 112, 40)
    } else if n == "yellow_concrete"@ {
        (224, 190, 44)
    } else if n == "lime_concrete"@ {
        (120, 190, 48)
    } else if n == "green_concrete"@ {
        (58, 132, 62)
    } else if n == "cyan_concrete"@ {
        (45, 170, 170)
    } else if n == "light_blue_concrete"@ {
        (72, 160, 216)
    } else if n == "blue_concrete"@ {
        (55, 82, 180)
    } else if n == "purple_concrete"@ {
        (122, 68, 170)
    } else if n == "magenta_concrete"@ {
        (190, 62, 160)
    } else if n == "pink_concrete"@ {
        (232, 120, 160)
    } else if n == "white_glass"@ {
        (220, 235, 240)
    } else if n == "red_glass"@ {
        (220, 75, 70)
    } else if n == "green_glass"@ {
        (75, 190, 100)
    } else if n == "cyan_glass"@ {
        (65, 200, 200)
    } else if n == "blue_glass"@ {
        (75, 115, 220)
    } else if is_metal_panel_name(n) {
        (160, 166, 172)
    } else if n == "gold_block"@ {
        (224, 170, 42)
    } else {
        (190, 190, 190)
    }
}

fn albedo_color(name: &str) -> (c: (u8, u8, u8))
    ensures
        c == albedo_color_spec(name@),
{
    if str_eq(name, "stone") {
        (125, 125, 125)
    } else if str_eq(name, "brick") {
        (150, 84, 66)
    } else if is_wood(name) {
        (157, 127, 78)
    } else if str_eq(name, "metal") || str_eq(name, "cobble") {
        (190, 198, 210)
    } else if str_eq(name, "gold") || str_eq(name, "sand") {
        (220, 170, 42)
    } else if str_eq(name, "emissive") || str_eq(name, "torch") || str_eq(name, "glowstone")
        || str_eq(name, "warm_lamp") || str_eq(name, "glow_panel") {
        (240, 90, 30)
    } else if str_eq(name, "sea_lantern") || str_eq(name, "cold_lamp") {
        (120, 220, 240)
    } else if str_eq(name, "water") {
        (63, 118, 228)
    } else if is_leaves(name) {
        (72, 132, 61)
    } else if str_eq(name, "ice") || str_eq(name, "packed_ice") {
        (142, 205, 232)
    } else if str_eq(name, "dirt") || str_eq(name, "dirt_path") || str_eq(name, "mud") {
        (134, 96, 67)
    } else if is_grey_stone(name) {
        (125, 125, 125)
    } else if str_eq(name, "sandstone") || str_eq(name, "cut_sandstone") || str_eq(
        name,
        "red_sandstone",
    ) || str_eq(name, "hay_bale") {
        (190, 166, 63)
    } else if is_dark_wood(name) {
        (145, 98, 52)
    } else if str_eq(name, "quartz") || str_eq(name, "quartz_tiles") || str_eq(
        name,
        "white_concrete",
    ) {
        (208, 210, 208)
    } else if str_eq(name, "light_gray_concrete") {
        (180, 182, 182)
    } else if str_eq(name, "gray_concrete") {
        (128, 130, 132)
    } else if str_eq(name, "black_concrete") {
        (38, 40, 44)
    } else if str_eq(name, "brown_concrete") {
        (112, 72, 48)
    } else if str_eq(name, "red_concrete") {
        (170, 52, 45)
    } else if str_eq(name, "orange_concrete") {
        (220, 112, 40)
    } else if str_eq(name, "yellow_concrete") {
        (224, 190, 44)
    } else if str_eq(name, "lime_concrete") {
        (120, 190, 48)
    } else if str_eq(name, "green_concrete") {
        (58, 132, 62)
    } else if str_eq(name, "cyan_concrete") {
        (45, 170, 170)
    } else if str_eq(name, "light_blue_concrete") {
        (72, 160, 216)
    } else if str_eq(name, "blue_concrete") {
        (55, 82, 180)
    } else if str_eq(name, "purple_concrete") {
        (122, 68, 170)
    } else if str_eq(name, "magenta_concrete") {
        (190, 62, 160)
    } else if str_eq(name, "pink_concrete") {
        (232, 120, 160)
    } else if str_eq(name, "white_glass") {
        (220, 235, 240)
    } else if str_eq(name, "red_glass") {
        (220, 75, 70)
    } else if str_eq(name, "green_glass") {
        (75, 190, 100)
    } else if str_eq(name, "cyan_glass") {
        (65, 200, 200)
    } else if str_eq(name, "blue_glass") {
        (75, 115, 220)
    } else if is_metal_panel(name) {
        (160, 166, 172)
    } else if str_eq(name, "gold_block") {
        (224, 170, 42)
    } else {
        (190, 190, 190)
    }
}

/// Clamp an integer into the byte range.
pub open spec fn clamp_u8(v: int) -> u8 {
    if v < 0 {
        0
    } else if v > 255 {
        255
    } else {
        v as u8
    }
}

/// Integer division that rounds toward zero, as `/` does on signed
/// machine integers.
pub open spec fn div_toward_zero(a: int, b: int) -> int
    recommends
        b > 0,
{
    if a >= 0 {
        a / b
    } else {
        -((-a) / b)
    }
}

/// The signed per-texel albedo offset of a layer.
pub open spec fn albedo_offset(name: Seq<char>, x: usize, y: usize, layer: u64) -> int {
    let d = (hash_spec(x, y, layer) % 17) as int - 8;
    if name == "stone"@ {
        div_toward_zero(d, 8)
    } else {
        d
    }
}

/// Byte `i` of the 16x16 RGBA base albedo of a layer.
pub open spec fn albedo_byte(name: Seq<char>, layer: u64, i: int) -> u8 {
    let p = i / 4;
    let c = i % 4;
    let x = (p % 16) as usize;
    let y = (p / 16) as usize;
    let color = albedo_color_spec(name);
    let base = if c == 0 {
        color.0
    } else if c == 1 {
        color.1
    } else {
        color.2
    };
    if c < 3 {
        clamp_u8(base + albedo_offset(name, x, y, layer))
    } else if name == "leaves"@ {
        ((hash_spec(x, y, layer) % 2) * 255) as u8
    } else {
        255
    }
}

pub open spec fn base_albedo_spec(name: Seq<char>, layer: u64) -> Seq<u8> {
    Seq::new(1024, |i: int| albedo_byte(name, layer, i))
}

/// Every texel of the 16x16 RGBA image `texels` has its colour channels
/// within 8 of `(r, g, b)`.
pub open spec fn albedo_near(texels: Seq<u8>, r: int, g: int, b: int) -> bool {
    &&& texels.len() == 1024
    &&& forall|p: int|
        0 <= p < 256 ==> {
            &&& -8 <= #[trigger] texels[4 * p] - r <= 8
            &&& -8 <= texels[4 * p + 1] - g <= 8
            &&& -8 <= texels[4 * p + 2] - b <= 8
        }
}

/// Colour channel `c` of a named layer's base colour.
pub open spec fn color_channel(color: (u8, u8, u8), c: int) -> int {
    if c == 0 {
        color.0 as int
    } else if c == 1 {
        color.1 as int
    } else {
        color.2 as int
    }
}

proof fn lemma_albedo_byte_near(n: Seq<char>, layer: u64, p: int, c: int)
    requires
        0 <= p < 256,
        0 <= c < 3,
    ensures
        -8 <= albedo_byte(n, layer, 4 * p + c) - color_channel(albedo_color_spec(n), c) <= 8,
{
    let i = 4 * p + c;
    assert(i / 4 == p && i % 4 == c);
    let x = (p % 16) as usize;
    let y = (p / 16) as usize;
    let d = (hash_spec(x, y, layer) % 17) as int - 8;
    assert(-8 <= d <= 8);
    if d >= 0 {
        assert(0 <= d / 8 <= 1);
    } else {
        assert(0 <= (-d) / 8 <= 1);
    }
    assert(-8 <= albedo_offset(n, x, y, layer) <= 8);
}

/// A layer's albedo is its base colour up to the hashed offset of at most 8.
proof fn lemma_albedo_near_color(n: Seq<char>, layer: u64)
    ensures
        albedo_near(
            base_albedo_spec(n, layer),
            albedo_color_spec(n).0 as int,
            albedo_color_spec(n).1 as int,
            albedo_color_spec(n).2 as int,
        ),
{
    let t = base_albedo_spec(n, layer);
    let col = albedo_color_spec(n);
    assert forall|p: int| 0 <= p < 256 implies {
        &&& -8 <= #[trigger] t[4 * p] - col.0 <= 8
        &&& -8 <= t[4 * p + 1] - col.1 <= 8
        &&& -8 <= t[4 * p + 2] - col.2 <= 8
    } by {
        lemma_albedo_byte_near(n, layer, p, 0);
        lemma_albedo_byte_near(n, layer, p, 1);
        lemma_albedo_byte_near(n, layer, p, 2);
        assert(4 * p + 0 == 4 * p);
    }
}

/// Only `leaves` is cut out: its texels are each fully opaque or fully
/// clear; every other layer is opaque everywhere.
pub proof fn lemma_albedo_alpha(n: Seq<char>, layer: u64)
    ensures
        forall|p: int|
            0 <= p < 256 ==> {
                let a = #[trigger] base_albedo_spec(n, layer)[4 * p + 3];
                &&& n == "leaves"@ ==> a == 0 || a == 255
                &&& n != "leaves"@ ==> a == 255
            },
{
    assert forall|p: int| 0 <= p < 256 implies {
        let a = #[trigger] base_albedo_spec(n, layer)[4 * p + 3];
        &&& n == "leaves"@ ==> a == 0 || a == 255
        &&& n != "leaves"@ ==> a == 255
    } by {
        assert((4 * p + 3) % 4 == 3 && (4 * p + 3) / 4 == p);
    }
}

/// The named layers' base colours: every texel of a layer's albedo is its
/// name's colour below, each channel off by at most 8 (the hashed offset).
pub proof fn lemma_albedo_palette(n: Seq<char>, layer: u64)
    ensures
        n == "stone"@ ==> albedo_near(base_albedo_spec(n, layer), 125, 125, 125),
        n == "brick"@ ==> albedo_near(base_albedo_spec(n, layer), 150, 84, 66),
        n == "wood"@ || n == "log_side"@ || n == "log_top"@ || n == "planks"@
            ==> albedo_near(base_albedo_spec(n, layer), 157, 127, 78),
        n == "metal"@ || n == "cobble"@ ==> albedo_near(base_albedo_spec(n, layer), 190, 198, 210),
        n == "gold"@ || n == "sand"@ ==> albedo_near(base_albedo_spec(n, layer), 220, 170, 42),
        n == "emissive"@ || n == "torch"@ || n == "glowstone"@ || n == "warm_lamp"@
            || n == "glow_panel"@
            ==> albedo_near(base_albedo_spec(n, layer), 240, 90, 30),
        n == "sea_lantern"@ || n == "cold_lamp"@
            ==> albedo_near(base_albedo_spec(n, layer), 120, 220, 240),
        n == "water"@ ==> albedo_near(base_albedo_spec(n, layer), 63, 118, 228),
        n == "leaves"@ || n == "birch_leaves"@ || n == "spruce_leaves"@
            || n == "dark_oak_leaves"@
            ==> albedo_near(base_albedo_spec(n, layer), 72, 132, 61),
        n == "ice"@ || n == "packed_ice"@
            ==> albedo_near(base_albedo_spec(n, layer), 142, 205, 232),
        n == "dirt"@ || n == "dirt_path"@ || n == "mud"@
            ==> albedo_near(base_albedo_spec(n, layer), 134, 96, 67),
        n == "gravel"@ || n == "polished_stone"@ || n == "stone_bricks"@
            || n == "mossy_stone_bricks"@ || n == "chiseled_stone"@ || n == "slate"@
            || n == "polished_slate"@ || n == "basalt"@ || n == "polished_basalt"@
            || n == "limestone"@ || n == "limestone_bricks"@ || n == "marble"@
            || n == "marble_tiles"@ || n == "obsidian"@ || n == "prismarine"@
            || n == "dark_prismarine"@
            ==> albedo_near(base_albedo_spec(n, layer), 125, 125, 125),
        n == "sandstone"@ || n == "cut_sandstone"@ || n == "red_sandstone"@ || n == "hay_bale"@
            ==> albedo_near(base_albedo_spec(n, layer), 190, 166, 63),
        n == "birch_log"@ || n == "spruce_log"@ || n == "dark_oak_log"@ || n == "birch_planks"@
            || n == "spruce_planks"@ || n == "dark_oak_planks"@ || n == "bookshelf"@
            || n == "crate"@ || n == "barrel"@
            ==> albedo_near(base_albedo_spec(n, layer), 145, 98, 52),
        n == "quartz"@ || n == "quartz_tiles"@ || n == "white_concrete"@
            ==> albedo_near(base_albedo_spec(n, layer), 208, 210, 208),
        n == "light_gray_concrete"@ ==> albedo_near(base_albedo_spec(n, layer), 180, 182, 182),
        n == "gray_concrete"@ ==> albedo_near(base_albedo_spec(n, layer), 128, 130, 132),
        n == "black_concrete"@ ==> albedo_near(base_albedo_spec(n, layer), 38, 40, 44),
        n == "brown_concrete"@ ==> albedo_near(base_albedo_spec(n, layer), 112, 72, 48),
        n == "red_concrete"@ ==> albedo_near(base_albedo_spec(n, layer), 170, 52, 45),
        n == "orange_concrete"@ ==> albedo_near(base_albedo_spec(n, layer), 220, 112, 40),
        n == "yellow_concrete"@ ==> albedo_near(base_albedo_spec(n, layer), 224, 190, 44),
        n == "lime_concrete"@ ==> albedo_near(base_albedo_spec(n, layer), 120, 190, 48),
        n == "green_concrete"@ ==> albedo_near(base_albedo_spec(n, layer), 58, 132, 62),
        n == "cyan_concrete"@ ==> albedo_near(base_albedo_spec(n, layer), 45, 170, 170),
        n == "light_blue_concrete"@ ==> albedo_near(base_albedo_spec(n, layer), 72, 160, 216),
        n == "blue_concrete"@ ==> albedo_near(base_albedo_spec(n, layer), 55, 82, 180),
        n == "purple_concrete"@ ==> albedo_near(base_albedo_spec(n, layer), 122, 68, 170),
        n == "magenta_concrete"@ ==> albedo_near(base_albedo_spec(n, layer), 190, 62, 160),
        n == "pink_concrete"@ ==> albedo_near(base_albedo_spec(n, layer), 232, 120, 160),
        n == "white_glass"@ ==> albedo_near(base_albedo_spec(n, layer), 220, 235, 240),
        n == "red_glass"@ ==> albedo_near(base_albedo_spec(n, layer), 220, 75, 70),
        n == "green_glass"@ ==> albedo_near(base_albedo_spec(n, layer), 75, 190, 100),
        n == "cyan_glass"@ ==> albedo_near(base_albedo_spec(n, layer), 65, 200, 200),
        n == "blue_glass"@ ==> albedo_near(base_albedo_spec(n, layer), 75, 115, 220),
        n == "metal_panel"@ || n == "rusted_metal"@ || n == "copper"@
            || n == "weathered_copper"@
            ==> albedo_near(base_albedo_spec(n, layer), 160, 166, 172),
        n == "gold_block"@ ==> albedo_near(base_albedo_spec(n, layer), 224, 170, 42),
{
    lemma_albedo_near_color(n, layer);
    reveal_strlit("barrel");
    assert("barrel"@.len() == 6);
    reveal_strlit("basalt");
    assert("basalt"@.len() == 6);
    reveal_strlit("birch_leaves");
    assert("birch_leaves"@.len() == 12);
    reveal_strlit("birch_log");
    assert("birch_log"@.len() == 9);
    reveal_strlit("birch_planks");
    assert("birch_planks"@.len() == 12);
    reveal_strlit("black_concrete");
    assert("black_concrete"@.len() == 14);
    reveal_strlit("blue_concrete");
    assert("blue_concrete"@.len() == 13);
    reveal_strlit("blue_glass");
    assert("blue_glass"@.len() == 10);
    reveal_strlit("bookshelf");
    assert("bookshelf"@.len() == 9);
    reveal_strlit("brick");
    assert("brick"@.len() == 5);
    reveal_strlit("brown_concrete");
    assert("brown_concrete"@.len() == 14);
    reveal_strlit("chiseled_stone");
    assert("chiseled_stone"@.len() == 14);
    reveal_strlit("cobble");
    assert("cobble"@.len() == 6);
    reveal_strlit("cold_lamp");
    assert("cold_lamp"@.len() == 9);
    reveal_strlit("copper");
    assert("copper"@.len() == 6);
    reveal_strlit("crate");
    assert("crate"@.len() == 5);
    reveal_strlit("cut_sandstone");
    assert("cut_sandstone"@.len() == 13);
    reveal_strlit("cyan_concrete");
    assert("cyan_concrete"@.len() == 13);
    reveal_strlit("cyan_glass");
    assert("cyan_glass"@.len() == 10);
    reveal_strlit("dark_oak_leaves");
    assert("dark_oak_leaves"@.len() == 15);
    reveal_strlit("dark_oak_log");
    assert("dark_oak_log"@.len() == 12);
    reveal_strlit("dark_oak_planks");
    assert("dark_oak_planks"@.len() == 15);
    reveal_strlit("dark_prismarine");
    assert("dark_prismarine"@.len() == 15);
    reveal_strlit("dirt");
    assert("dirt"@.len() == 4);
    reveal_strlit("dirt_path");
    assert("dirt_path"@.len() == 9);
    reveal_strlit("emissive");
    assert("emissive"@.len() == 8);
    reveal_strlit("glow_panel");
    assert("glow_panel"@.len() == 10);
    reveal_strlit("glowstone");
    assert("glowstone"@.len() == 9);
    reveal_strlit("gold");
    assert("gold"@.len() == 4);
    reveal_strlit("gold_block");
    assert("gold_block"@.len() == 10);
    reveal_strlit("gravel");
    assert("gravel"@.len() == 6);
    reveal_strlit("gray_concrete");
    assert("gray_concrete"@.len() == 13);
    reveal_strlit("green_concrete");
    assert("green_concrete"@.len() == 14);
    reveal_strlit("green_glass");
    assert("green_glass"@.len() == 11);
    reveal_strlit("hay_bale");
    assert("hay_bale"@.len() == 8);
    reveal_strlit("ice");
    assert("ice"@.len() == 3);
    reveal_strlit("leaves");
    assert("leaves"@.len() == 6);
    reveal_strlit("light_blue_concrete");
    assert("light_blue_concrete"@.len() == 19);
    reveal_strlit("light_gray_concrete");
    assert("light_gray_concrete"@.len() == 19);
    reveal_strlit("lime_concrete");
    assert("lime_concrete"@.len() == 13);
    reveal_strlit("limestone");
    assert("limestone"@.len() == 9);
    reveal_strlit("limestone_bricks");
    assert("limestone_bricks"@.len() == 16);
    reveal_strlit("log_side");
    assert("log_side"@.len() == 8);
    reveal_strlit("log_top");
    assert("log_top"@.len() == 7);
    reveal_strlit("magenta_concrete");
    assert("magenta_concrete"@.len() == 16);
    reveal_strlit("marble");
    assert("marble"@.len() == 6);
    reveal_strlit("marble_tiles");
    assert("marble_tiles"@.len() == 12);
    reveal_strlit("metal");
    assert("metal"@.len() == 5);
    reveal_strlit("metal_panel");
    assert("metal_panel"@.len() == 11);
    reveal_strlit("mossy_stone_bricks");
    assert("mossy_stone_bricks"@.len() == 18);
    reveal_strlit("mud");
    assert("mud"@.len() == 3);
    reveal_strlit("obsidian");
    assert("obsidian"@.len() == 8);
    reveal_strlit("orange_concrete");
    assert("orange_concrete"@.len() == 15);
    reveal_strlit("packed_ice");
    assert("packed_ice"@.len() == 10);
    reveal_strlit("pink_concrete");
    assert("pink_concrete"@.len() == 13);
    reveal_strlit("planks");
    assert("planks"@.len() == 6);
    reveal_strlit("polished_basalt");
    assert("polished_basalt"@.len() == 15);
    reveal_strlit("polished_slate");
    assert("polished_slate"@.len() == 14);
    reveal_strlit("polished_stone");
    assert("polished_stone"@.len() == 14);
    reveal_strlit("prismarine");
    assert("prismarine"@.len() == 10);
    reveal_strlit("purple_concrete");
    assert("purple_concrete"@.len() == 15);
    reveal_strlit("quartz");
    assert("quartz"@.len() == 6);
    reveal_strlit("quartz_tiles");
    assert("quartz_tiles"@.len() == 12);
    reveal_strlit("red_concrete");
    assert("red_concrete"@.len() == 12);
    reveal_strlit("red_glass");
    assert("red_glass"@.len() == 9);
    reveal_strlit("red_sandstone");
    assert("red_sandstone"@.len() == 13);
    reveal_strlit("rusted_metal");
    assert("rusted_metal"@.len() == 12);
    reveal_strlit("sand");
    assert("sand"@.len() == 4);
    reveal_strlit("sandstone");
    assert("sandstone"@.len() == 9);
    reveal_strlit("sea_lantern");
    assert("sea_lantern"@.len() == 11);
    reveal_strlit("slate");
    assert("slate"@.len() == 5);
    reveal_strlit("spruce_leaves");
    assert("spruce_leaves"@.len() == 13);
    reveal_strlit("spruce_log");
    assert("spruce_log"@.len() == 10);
    reveal_strlit("spruce_planks");
    assert("spruce_planks"@.len() == 13);
    reveal_strlit("stone");
    assert("stone"@.len() == 5);
    reveal_strlit("stone_bricks");
    assert("stone_bricks"@.len() == 12);
    reveal_strlit("torch");
    assert("torch"@.len() == 5);
    reveal_strlit("warm_lamp");
    assert("warm_lamp"@.len() == 9);
    reveal_strlit("water");
    assert("water"@.len() == 5);
    reveal_strlit("weathered_copper");
    assert("weathered_copper"@.len() == 16);
    reveal_strlit("white_concrete");
    assert("white_concrete"@.len() == 14);
    reveal_strlit("white_glass");
    assert("white_glass"@.len() == 11);
    reveal_strlit("wood");
    assert("wood"@.len() == 4);
    reveal_strlit("yellow_concrete");
    assert("yellow_concrete"@.len() == 15);
    assert(n == "stone"@ ==> albedo_color_spec(n) == (125u8, 125u8, 125u8)) by {
    }
    assert(n == "brick"@ ==> albedo_color_spec(n) == (150u8, 84u8, 66u8)) by {
        if n == "brick"@ {
            assert("brick"@[0] != "stone"@[0]);
        }
    }
    assert(
        n == "wood"@ || n == "log_side"@ || n == "log_top"@ || n == "planks"@
            ==> albedo_color_spec(n) == (157u8, 127u8, 78u8)
    ) by {
    }
    assert(n == "metal"@ || n == "cobble"@ ==> albedo_color_spec(n) == (190u8, 198u8, 210u8)) by {
        if n == "metal"@ || n == "cobble"@ {
            assert("metal"@[0] != "stone"@[0]);
            assert("metal"@[0] != "brick"@[0]);
            assert("cobble"@[0] != "planks"@[0]);
        }
    }
    assert(n == "gold"@ || n == "sand"@ ==> albedo_color_spec(n) == (220u8, 170u8, 42u8)) by {
        if n == "gold"@ || n == "sand"@ {
            assert("gold"@[0] != "wood"@[0]);
            assert("sand"@[0] != "wood"@[0]);
        }
    }
    assert(
        n == "emissive"@ || n == "torch"@ || n == "glowstone"@ || n == "warm_lamp"@
            || n == "glow_panel"@
            ==> albedo_color_spec(n) == (240u8, 90u8, 30u8)
    ) by {
        if n == "emissive"@ || n == "torch"@ || n == "glowstone"@ || n == "warm_lamp"@
            || n == "glow_panel"@ {
            assert("emissive"@[0] != "log_side"@[0]);
            assert("torch"@[0] != "stone"@[0]);
            assert("torch"@[0] != "brick"@[0]);
            assert("torch"@[0] != "metal"@[0]);
        }
    }
    assert(
        n == "sea_lantern"@ || n == "cold_lamp"@
            ==> albedo_color_spec(n) == (120u8, 220u8, 240u8)
    ) by {
        if n == "sea_lantern"@ || n == "cold_lamp"@ {
            assert("cold_lamp"@[0] != "glowstone"@[0]);
            assert("cold_lamp"@[0] != "warm_lamp"@[0]);
        }
    }
    assert(n == "water"@ ==> albedo_color_spec(n) == (63u8, 118u8, 228u8)) by {
        if n == "water"@ {
            assert("water"@[0] != "stone"@[0]);
            assert("water"@[0] != "brick"@[0]);
            assert("water"@[0] != "metal"@[0]);
            assert("water"@[0] != "torch"@[0]);
        }
    }
    assert(
        n == "leaves"@ || n == "birch_leaves"@ || n == "spruce_leaves"@
            || n == "dark_oak_leaves"@
            ==> albedo_color_spec(n) == (72u8, 132u8, 61u8)
    ) by {
        if n == "leaves"@ || n == "birch_leaves"@ || n == "spruce_leaves"@
            || n == "dark_oak_leaves"@ {
            assert("leaves"@[0] != "planks"@[0]);
            assert("leaves"@[0] != "cobble"@[0]);
        }
    }
    assert(n == "ice"@ || n == "packed_ice"@ ==> albedo_color_spec(n) == (142u8, 205u8, 232u8)) by {
        if n == "ice"@ || n == "packed_ice"@ {
            assert("packed_ice"@[0] != "glow_panel"@[0]);
        }
    }
    assert(
        n == "dirt"@ || n == "dirt_path"@ || n == "mud"@
            ==> albedo_color_spec(n) == (134u8, 96u8, 67u8)
    ) by {
        if n == "dirt"@ || n == "dirt_path"@ || n == "mud"@ {
            assert("dirt"@[0] != "wood"@[0]);
            assert("dirt"@[0] != "gold"@[0]);
            assert("dirt"@[0] != "sand"@[0]);
            assert("dirt_path"@[0] != "glowstone"@[0]);
            assert("dirt_path"@[0] != "warm_lamp"@[0]);
            assert("dirt_path"@[0] != "cold_lamp"@[0]);
            assert("mud"@[0] != "ice"@[0]);
        }
    }
    assert(
        n == "gravel"@ || n == "polished_stone"@ || n == "stone_bricks"@
            || n == "mossy_stone_bricks"@ || n == "chiseled_stone"@ || n == "slate"@
            || n == "polished_slate"@ || n == "basalt"@ || n == "polished_basalt"@
            || n == "limestone"@ || n == "limestone_bricks"@ || n == "marble"@
            || n == "marble_tiles"@ || n == "obsidian"@ || n == "prismarine"@
            || n == "dark_prismarine"@
            ==> albedo_color_spec(n) == (125u8, 125u8, 125u8)
    ) by {
        if n == "gravel"@ || n == "polished_stone"@ || n == "stone_bricks"@
            || n == "mossy_stone_bricks"@ || n == "chiseled_stone"@ || n == "slate"@
            || n == "polished_slate"@ || n == "basalt"@ || n == "polished_basalt"@
            || n == "limestone"@ || n == "limestone_bricks"@ || n == "marble"@
            || n == "marble_tiles"@ || n == "obsidian"@ || n == "prismarine"@
            || n == "dark_prismarine"@ {
            assert("gravel"@[0] != "planks"@[0]);
            assert("gravel"@[0] != "cobble"@[0]);
            assert("gravel"@[0] != "leaves"@[0]);
            assert("stone_bricks"@[0] != "birch_leaves"@[0]);
            assert("slate"@[1] != "stone"@[1]);
            assert("slate"@[0] != "brick"@[0]);
            assert("slate"@[0] != "metal"@[0]);
            assert("slate"@[0] != "torch"@[0]);
            assert("slate"@[0] != "water"@[0]);
            assert("basalt"@[0] != "planks"@[0]);
            assert("basalt"@[0] != "cobble"@[0]);
            assert("basalt"@[0] != "leaves"@[0]);
            assert("polished_basalt"@[0] != "dark_oak_leaves"@[0]);
            assert("limestone"@[0] != "glowstone"@[0]);
            assert("limestone"@[0] != "warm_lamp"@[0]);
            assert("limestone"@[0] != "cold_lamp"@[0]);
            assert("limestone"@[0] != "dirt_path"@[0]);
            assert("marble"@[0] != "planks"@[0]);
            assert("marble"@[0] != "cobble"@[0]);
            assert("marble"@[0] != "leaves"@[0]);
            assert("marble_tiles"@[0] != "birch_leaves"@[0]);
            assert("obsidian"@[0] != "log_side"@[0]);
            assert("obsidian"@[0] != "emissive"@[0]);
            assert("prismarine"@[0] != "glow_panel"@[0]);
            assert("prismarine"@[1] != "packed_ice"@[1]);
            assert("dark_prismarine"@[5] != "dark_oak_leaves"@[5]);
        }
    }
    assert(
        n == "sandstone"@ || n == "cut_sandstone"@ || n == "red_sandstone"@ || n == "hay_bale"@
            ==> albedo_color_spec(n) == (190u8, 166u8, 63u8)
    ) by {
        if n == "sandstone"@ || n == "cut_sandstone"@ || n == "red_sandstone"@ || n == "hay_bale"@ {
            assert("sandstone"@[0] != "glowstone"@[0]);
            assert("sandstone"@[0] != "warm_lamp"@[0]);
            assert("sandstone"@[0] != "cold_lamp"@[0]);
            assert("sandstone"@[0] != "dirt_path"@[0]);
            assert("sandstone"@[0] != "limestone"@[0]);
            assert("cut_sandstone"@[0] != "spruce_leaves"@[0]);
            assert("red_sandstone"@[0] != "spruce_leaves"@[0]);
            assert("hay_bale"@[0] != "log_side"@[0]);
            assert("hay_bale"@[0] != "emissive"@[0]);
            assert("hay_bale"@[0] != "obsidian"@[0]);
        }
    }
    assert(
        n == "birch_log"@ || n == "spruce_log"@ || n == "dark_oak_log"@ || n == "birch_planks"@
            || n == "spruce_planks"@ || n == "dark_oak_planks"@ || n == "bookshelf"@
            || n == "crate"@ || n == "barrel"@
            ==> albedo_color_spec(n) == (145u8, 98u8, 52u8)
    ) by {
        if n == "birch_log"@ || n == "spruce_log"@ || n == "dark_oak_log"@ || n == "birch_planks"@
            || n == "spruce_planks"@ || n == "dark_oak_planks"@ || n == "bookshelf"@
            || n == "crate"@ || n == "barrel"@ {
            assert("birch_log"@[0] != "glowstone"@[0]);
            assert("birch_log"@[0] != "warm_lamp"@[0]);
            assert("birch_log"@[0] != "cold_lamp"@[0]);
            assert("birch_log"@[0] != "dirt_path"@[0]);
            assert("birch_log"@[0] != "limestone"@[0]);
            assert("birch_log"@[0] != "sandstone"@[0]);
            assert("spruce_log"@[0] != "glow_panel"@[0]);
            assert("spruce_log"@[0] != "packed_ice"@[0]);
            assert("spruce_log"@[0] != "prismarine"@[0]);
            assert("dark_oak_log"@[0] != "birch_leaves"@[0]);
            assert("dark_oak_log"@[0] != "stone_bricks"@[0]);
            assert("dark_oak_log"@[0] != "marble_tiles"@[0]);
            assert("birch_planks"@[6] != "birch_leaves"@[6]);
            assert("birch_planks"@[0] != "stone_bricks"@[0]);
            assert("birch_planks"@[0] != "marble_tiles"@[0]);
            assert("spruce_planks"@[7] != "spruce_leaves"@[7]);
            assert("spruce_planks"@[0] != "cut_sandstone"@[0]);
            assert("spruce_planks"@[0] != "red_sandstone"@[0]);
            assert("dark_oak_planks"@[9] != "dark_oak_leaves"@[9]);
            assert("dark_oak_planks"@[0] != "polished_basalt"@[0]);
            assert("dark_oak_planks"@[5] != "dark_prismarine"@[5]);
            assert("bookshelf"@[0] != "glowstone"@[0]);
            assert("bookshelf"@[0] != "warm_lamp"@[0]);
            assert("bookshelf"@[0] != "cold_lamp"@[0]);
            assert("bookshelf"@[0] != "dirt_path"@[0]);
            assert("bookshelf"@[0] != "limestone"@[0]);
            assert("bookshelf"@[0] != "sandstone"@[0]);
            assert("crate"@[0] != "stone"@[0]);
            assert("crate"@[0] != "brick"@[0]);
            assert("crate"@[0] != "metal"@[0]);
            assert("crate"@[0] != "torch"@[0]);
            assert("crate"@[0] != "water"@[0]);
            assert("crate"@[0] != "slate"@[0]);
            assert("barrel"@[0] != "planks"@[0]);
            assert("barrel"@[0] != "cobble"@[0]);
            assert("barrel"@[0] != "leaves"@[0]);
            assert("barrel"@[0] != "gravel"@[0]);
            assert("barrel"@[2] != "basalt"@[2]);
            assert("barrel"@[0] != "marble"@[0]);
        }
    }
    assert(
        n == "quartz"@ || n == "quartz_tiles"@ || n == "white_concrete"@
            ==> albedo_color_spec(n) == (208u8, 210u8, 208u8)
    ) by {
        if n == "quartz"@ || n == "quartz_tiles"@ || n == "white_concrete"@ {
            assert("quartz"@[0] != "planks"@[0]);
            assert("quartz"@[0] != "cobble"@[0]);
            assert("quartz"@[0] != "leaves"@[0]);
            assert("quartz"@[0] != "gravel"@[0]);
            assert("quartz"@[0] != "basalt"@[0]);
            assert("quartz"@[0] != "marble"@[0]);
            assert("quartz"@[0] != "barrel"@[0]);
            assert("quartz_tiles"@[0] != "birch_leaves"@[0]);
            assert("quartz_tiles"@[0] != "stone_bricks"@[0]);
            assert("quartz_tiles"@[0] != "marble_tiles"@[0]);
            assert("quartz_tiles"@[0] != "dark_oak_log"@[0]);
            assert("quartz_tiles"@[0] != "birch_planks"@[0]);
            assert("white_concrete"@[0] != "polished_stone"@[0]);
            assert("white_concrete"@[0] != "chiseled_stone"@[0]);
            assert("white_concrete"@[0] != "polished_slate"@[0]);
        }
    }
    assert(n == "light_gray_concrete"@ ==> albedo_color_spec(n) == (180u8, 182u8, 182u8)) by {
    }
    assert(n == "gray_concrete"@ ==> albedo_color_spec(n) == (128u8, 130u8, 132u8)) by {
        if n == "gray_concrete"@ {
            assert("gray_concrete"@[0] != "spruce_leaves"@[0]);
            assert("gray_concrete"@[0] != "cut_sandstone"@[0]);
            assert("gray_concrete"@[0] != "red_sandstone"@[0]);
            assert("gray_concrete"@[0] != "spruce_planks"@[0]);
        }
    }
    assert(n == "black_concrete"@ ==> albedo_color_spec(n) == (38u8, 40u8, 44u8)) by {
        if n == "black_concrete"@ {
            assert("black_concrete"@[0] != "polished_stone"@[0]);
            assert("black_concrete"@[0] != "chiseled_stone"@[0]);
            assert("black_concrete"@[0] != "polished_slate"@[0]);
            assert("black_concrete"@[0] != "white_concrete"@[0]);
        }
    }
    assert(n == "brown_concrete"@ ==> albedo_color_spec(n) == (112u8, 72u8, 48u8)) by {
        if n == "brown_concrete"@ {
            assert("brown_concrete"@[0] != "polished_stone"@[0]);
            assert("brown_concrete"@[0] != "chiseled_stone"@[0]);
            assert("brown_concrete"@[0] != "polished_slate"@[0]);
            assert("brown_concrete"@[0] != "white_concrete"@[0]);
            assert("brown_concrete"@[1] != "black_concrete"@[1]);
        }
    }
    assert(n == "red_concrete"@ ==> albedo_color_spec(n) == (170u8, 52u8, 45u8)) by {
        if n == "red_concrete"@ {
            assert("red_concrete"@[0] != "birch_leaves"@[0]);
            assert("red_concrete"@[0] != "stone_bricks"@[0]);
            assert("red_concrete"@[0] != "marble_tiles"@[0]);
            assert("red_concrete"@[0] != "dark_oak_log"@[0]);
            assert("red_concrete"@[0] != "birch_planks"@[0]);
            assert("red_concrete"@[0] != "quartz_tiles"@[0]);
        }
    }
    assert(n == "orange_concrete"@ ==> albedo_color_spec(n) == (220u8, 112u8, 40u8)) by {
        if n == "orange_concrete"@ {
            assert("orange_concrete"@[0] != "dark_oak_leaves"@[0]);
            assert("orange_concrete"@[0] != "polished_basalt"@[0]);
            assert("orange_concrete"@[0] != "dark_prismarine"@[0]);
            assert("orange_concrete"@[0] != "dark_oak_planks"@[0]);
        }
    }
    assert(n == "yellow_concrete"@ ==> albedo_color_spec(n) == (224u8, 190u8, 44u8)) by {
        if n == "yellow_concrete"@ {
            assert("yellow_concrete"@[0] != "dark_oak_leaves"@[0]);
            assert("yellow_concrete"@[0] != "polished_basalt"@[0]);
            assert("yellow_concrete"@[0] != "dark_prismarine"@[0]);
            assert("yellow_concrete"@[0] != "dark_oak_planks"@[0]);
            assert("yellow_concrete"@[0] != "orange_concrete"@[0]);
        }
    }
    assert(n == "lime_concrete"@ ==> albedo_color_spec(n) == (120u8, 190u8, 48u8)) by {
        if n == "lime_concrete"@ {
            assert("lime_concrete"@[0] != "spruce_leaves"@[0]);
            assert("lime_concrete"@[0] != "cut_sandstone"@[0]);
            assert("lime_concrete"@[0] != "red_sandstone"@[0]);
            assert("lime_concrete"@[0] != "spruce_planks"@[0]);
            assert("lime_concrete"@[0] != "gray_concrete"@[0]);
        }
    }
    assert(n == "green_concrete"@ ==> albedo_color_spec(n) == (58u8, 132u8, 62u8)) by {
        if n == "green_concrete"@ {
            assert("green_concrete"@[0] != "polished_stone"@[0]);
            assert("green_concrete"@[0] != "chiseled_stone"@[0]);
            assert("green_concrete"@[0] != "polished_slate"@[0]);
            assert("green_concrete"@[0] != "white_concrete"@[0]);
            assert("green_concrete"@[0] != "black_concrete"@[0]);
            assert("green_concrete"@[0] != "brown_concrete"@[0]);
        }
    }
    assert(n == "cyan_concrete"@ ==> albedo_color_spec(n) == (45u8, 170u8, 170u8)) by {
        if n == "cyan_concrete"@ {
            assert("cyan_concrete"@[0] != "spruce_leaves"@[0]);
            assert("cyan_concrete"@[1] != "cut_sandstone"@[1]);
            assert("cyan_concrete"@[0] != "red_sandstone"@[0]);
            assert("cyan_concrete"@[0] != "spruce_planks"@[0]);
            assert("cyan_concrete"@[0] != "gray_concrete"@[0]);
            assert("cyan_concrete"@[0] != "lime_concrete"@[0]);
        }
    }
    assert(n == "light_blue_concrete"@ ==> albedo_color_spec(n) == (72u8, 160u8, 216u8)) by {
        if n == "light_blue_concrete"@ {
            assert("light_blue_concrete"@[6] != "light_gray_concrete"@[6]);
        }
    }
    assert(n == "blue_concrete"@ ==> albedo_color_spec(n) == (55u8, 82u8, 180u8)) by {
        if n == "blue_concrete"@ {
            assert("blue_concrete"@[0] != "spruce_leaves"@[0]);
            assert("blue_concrete"@[0] != "cut_sandstone"@[0]);
            assert("blue_concrete"@[0] != "red_sandstone"@[0]);
            assert("blue_concrete"@[0] != "spruce_planks"@[0]);
            assert("blue_concrete"@[0] != "gray_concrete"@[0]);
            assert("blue_concrete"@[0] != "lime_concrete"@[0]);
            assert("blue_concrete"@[0] != "cyan_concrete"@[0]);
        }
    }
    assert(n == "purple_concrete"@ ==> albedo_color_spec(n) == (122u8, 68u8, 170u8)) by {
        if n == "purple_concrete"@ {
            assert("purple_concrete"@[0] != "dark_oak_leaves"@[0]);
            assert("purple_concrete"@[1] != "polished_basalt"@[1]);
            assert("purple_concrete"@[0] != "dark_prismarine"@[0]);
            assert("purple_concrete"@[0] != "dark_oak_planks"@[0]);
            assert("purple_concrete"@[0] != "orange_concrete"@[0]);
            assert("purple_concrete"@[0] != "yellow_concrete"@[0]);
        }
    }
    assert(n == "magenta_concrete"@ ==> albedo_color_spec(n) == (190u8, 62u8, 160u8)) by {
        if n == "magenta_concrete"@ {
            assert("magenta_concrete"@[0] != "limestone_bricks"@[0]);
        }
    }
    assert(n == "pink_concrete"@ ==> albedo_color_spec(n) == (232u8, 120u8, 160u8)) by {
        if n == "pink_concrete"@ {
            assert("pink_concrete"@[0] != "spruce_leaves"@[0]);
            assert("pink_concrete"@[0] != "cut_sandstone"@[0]);
            assert("pink_concrete"@[0] != "red_sandstone"@[0]);
            assert("pink_concrete"@[0] != "spruce_planks"@[0]);
            assert("pink_concrete"@[0] != "gray_concrete"@[0]);
            assert("pink_concrete"@[0] != "lime_concrete"@[0]);
            assert("pink_concrete"@[0] != "cyan_concrete"@[0]);
            assert("pink_concrete"@[0] != "blue_concrete"@[0]);
        }
    }
    assert(n == "white_glass"@ ==> albedo_color_spec(n) == (220u8, 235u8, 240u8)) by {
        if n == "white_glass"@ {
            assert("white_glass"@[0] != "sea_lantern"@[0]);
        }
    }
    assert(n == "red_glass"@ ==> albedo_color_spec(n) == (220u8, 75u8, 70u8)) by {
        if n == "red_glass"@ {
            assert("red_glass"@[0] != "glowstone"@[0]);
            assert("red_glass"@[0] != "warm_lamp"@[0]);
            assert("red_glass"@[0] != "cold_lamp"@[0]);
            assert("red_glass"@[0] != "dirt_path"@[0]);
            assert("red_glass"@[0] != "limestone"@[0]);
            assert("red_glass"@[0] != "sandstone"@[0]);
            assert("red_glass"@[0] != "birch_log"@[0]);
            assert("red_glass"@[0] != "bookshelf"@[0]);
        }
    }
    assert(n == "green_glass"@ ==> albedo_color_spec(n) == (75u8, 190u8, 100u8)) by {
        if n == "green_glass"@ {
            assert("green_glass"@[0] != "sea_lantern"@[0]);
            assert("green_glass"@[0] != "white_glass"@[0]);
        }
    }
    assert(n == "cyan_glass"@ ==> albedo_color_spec(n) == (65u8, 200u8, 200u8)) by {
        if n == "cyan_glass"@ {
            assert("cyan_glass"@[0] != "glow_panel"@[0]);
            assert("cyan_glass"@[0] != "packed_ice"@[0]);
            assert("cyan_glass"@[0] != "prismarine"@[0]);
            assert("cyan_glass"@[0] != "spruce_log"@[0]);
        }
    }
    assert(n == "blue_glass"@ ==> albedo_color_spec(n) == (75u8, 115u8, 220u8)) by {
        if n == "blue_glass"@ {
            assert("blue_glass"@[0] != "glow_panel"@[0]);
            assert("blue_glass"@[0] != "packed_ice"@[0]);
            assert("blue_glass"@[0] != "prismarine"@[0]);
            assert("blue_glass"@[0] != "spruce_log"@[0]);
            assert("blue_glass"@[0] != "cyan_glass"@[0]);
        }
    }
    assert(
        n == "metal_panel"@ || n == "rusted_metal"@ || n == "copper"@
            || n == "weathered_copper"@
            ==> albedo_color_spec(n) == (160u8, 166u8, 172u8)
    ) by {
        if n == "metal_panel"@ || n == "rusted_metal"@ || n == "copper"@
            || n == "weathered_copper"@ {
            assert("metal_panel"@[0] != "sea_lantern"@[0]);
            assert("metal_panel"@[0] != "white_glass"@[0]);
            assert("metal_panel"@[0] != "green_glass"@[0]);
            assert("rusted_metal"@[0] != "birch_leaves"@[0]);
            assert("rusted_metal"@[0] != "stone_bricks"@[0]);
            assert("rusted_metal"@[0] != "marble_tiles"@[0]);
            assert("rusted_metal"@[0] != "dark_oak_log"@[0]);
            assert("rusted_metal"@[0] != "birch_planks"@[0]);
            assert("rusted_metal"@[0] != "quartz_tiles"@[0]);
            assert("rusted_metal"@[1] != "red_concrete"@[1]);
            assert("copper"@[0] != "planks"@[0]);
            assert("copper"@[2] != "cobble"@[2]);
            assert("copper"@[0] != "leaves"@[0]);
            assert("copper"@[0] != "gravel"@[0]);
            assert("copper"@[0] != "basalt"@[0]);
            assert("copper"@[0] != "marble"@[0]);
            assert("copper"@[0] != "barrel"@[0]);
            assert("copper"@[0] != "quartz"@[0]);
            assert("weathered_copper"@[0] != "limestone_bricks"@[0]);
            assert("weathered_copper"@[0] != "magenta_concrete"@[0]);
        }
    }
    assert(n == "gold_block"@ ==> albedo_color_spec(n) == (224u8, 170u8, 42u8)) by {
        if n == "gold_block"@ {
            assert("gold_block"@[1] != "glow_panel"@[1]);
            assert("gold_block"@[0] != "packed_ice"@[0]);
            assert("gold_block"@[0] != "prismarine"@[0]);
            assert("gold_block"@[0] != "spruce_log"@[0]);
            assert("gold_block"@[0] != "cyan_glass"@[0]);
            assert("gold_block"@[0] != "blue_glass"@[0]);
        }
    }
}

/// Channel 2 of every texel of the 16x16 RGBA material image `t` is `r`.
pub open spec fn roughness_is(t: Seq<u8>, r: int) -> bool {
    &&& t.len() == 1024
    &&& forall|p: int| 0 <= p < 256 ==> #[trigger] t[4 * p + 2] == r
}

/// The two normal channels of every texel of `t` lie within `a` of 128
/// (a flat normal).
pub open spec fn normals_within(t: Seq<u8>, a: int) -> bool {
    &&& t.len() == 1024
    &&& forall|p: int|
        0 <= p < 256 ==> -a <= #[trigger] t[4 * p] - 128 <= a && -a <= t[4 * p + 1] - 128 <= a
}

proof fn lemma_normal_byte_near_flat(h: u8, a: i16)
    requires
        0 <= a <= 128,
    ensures
        -a <= normal_byte(h, a) - 128 <= a,
{
    let v = (h as int - 128) * (a as int);
    assert(-128 * a <= v <= 128 * a) by (nonlinear_arith)
        requires
            v == (h as int - 128) * (a as int),
            0 <= h <= 255,
            0 <= a,
    ;
    if v >= 0 {
        assert(v / 128 <= a as int) by (nonlinear_arith)
            requires
                0 <= v <= 128 * a,
        ;
    } else {
        assert((-v) / 128 <= a as int) by (nonlinear_arith)
            requires
                0 < -v <= 128 * a,
        ;
    }
}

proof fn lemma_material_follows_tables(n: Seq<char>, layer: u64)
    ensures
        roughness_is(base_material_spec(n, layer), roughness_spec(n) as int),
        normals_within(base_material_spec(n, layer), normal_amplitude_spec(n) as int),
{
    let t = base_material_spec(n, layer);
    let a = normal_amplitude_spec(n);
    assert(1 <= a <= 45);
    assert forall|p: int| 0 <= p < 256 implies #[trigger] t[4 * p + 2] == roughness_spec(n) as int
        by {
        assert((4 * p + 2) % 4 == 2);
    }
    assert forall|p: int| 0 <= p < 256 implies -(a as int) <= #[trigger] t[4 * p] - 128 <= a
        && -(a as int) <= t[4 * p + 1] - 128 <= a by {
        assert((4 * p) % 4 == 0 && (4 * p) / 4 == p);
        assert((4 * p + 1) % 4 == 1 && (4 * p + 1) / 4 == p);
        let x = (p % 16) as usize;
        let y = (p / 16) as usize;
        lemma_normal_byte_near_flat(hash_spec(x, y, layer), a);
        lemma_normal_byte_near_flat(hash_spec(y, x, layer.wrapping_add(0x9e37u64)), a);
    }
}

/// The named layers' surface tables: the roughness channel of every texel
/// and how far the two normal channels may tilt from flat (128), per name.
pub proof fn lemma_material_palette(n: Seq<char>, layer: u64)
    ensures
        n == "metal"@ || n == "cobble"@ || n == "metal_panel"@ || n == "copper"@
            || n == "weathered_copper"@
            ==> roughness_is(base_material_spec(n, layer), 48),
        n == "rusted_metal"@
            ==> roughness_is(base_material_spec(n, layer), 112),
        n == "gold"@ || n == "sand"@ || n == "gold_block"@
            ==> roughness_is(base_material_spec(n, layer), 65),
        n == "brick"@
            ==> roughness_is(base_material_spec(n, layer), 190),
        n == "wood"@ || n == "log_side"@ || n == "log_top"@ || n == "planks"@
            ==> roughness_is(base_material_spec(n, layer), 150),
        !(n == "metal"@ || n == "cobble"@ || n == "metal_panel"@ || n == "copper"@
            || n == "weathered_copper"@ || n == "rusted_metal"@ || n == "gold"@
            || n == "sand"@ || n == "gold_block"@ || n == "brick"@ || n == "wood"@
            || n == "log_side"@ || n == "log_top"@ || n == "planks"@)
            ==> roughness_is(base_material_spec(n, layer), 210),
        n == "stone"@
            ==> normals_within(base_material_spec(n, layer), 1),
        n == "brick"@
            ==> normals_within(base_material_spec(n, layer), 34),
        n == "wood"@ || n == "log_side"@ || n == "log_top"@ || n == "planks"@
            ==> normals_within(base_material_spec(n, layer), 22),
        n == "metal"@ || n == "cobble"@ || n == "metal_panel"@ || n == "rusted_metal"@
            || n == "copper"@ || n == "weathered_copper"@
            ==> normals_within(base_material_spec(n, layer), 10),
        n == "gold"@ || n == "sand"@
            ==> normals_within(base_material_spec(n, layer), 45),
        !(n == "stone"@ || n == "brick"@ || n == "wood"@ || n == "log_side"@
            || n == "log_top"@ || n == "planks"@ || n == "metal"@ || n == "cobble"@
            || n == "metal_panel"@ || n == "rusted_metal"@ || n == "copper"@
            || n == "weathered_copper"@ || n == "gold"@ || n == "sand"@)
            ==> normals_within(base_material_spec(n, layer), 16),
{
    lemma_material_follows_tables(n, layer);
    reveal_strlit("brick");
    assert("brick"@.len() == 5);
    reveal_strlit("cobble");
    assert("cobble"@.len() == 6);
    reveal_strlit("copper");
    assert("copper"@.len() == 6);
    reveal_strlit("gold");
    assert("gold"@.len() == 4);
    reveal_strlit("gold_block");
    assert("gold_block"@.len() == 10);
    reveal_strlit("log_side");
    assert("log_side"@.len() == 8);
    reveal_strlit("log_top");
    assert("log_top"@.len() == 7);
    reveal_strlit("metal");
    assert("metal"@.len() == 5);
    reveal_strlit("metal_panel");
    assert("metal_panel"@.len() == 11);
    reveal_strlit("planks");
    assert("planks"@.len() == 6);
    reveal_strlit("rusted_metal");
    assert("rusted_metal"@.len() == 12);
    reveal_strlit("sand");
    assert("sand"@.len() == 4);
    reveal_strlit("stone");
    assert("stone"@.len() == 5);
    reveal_strlit("weathered_copper");
    assert("weathered_copper"@.len() == 16);
    reveal_strlit("wood");
    assert("wood"@.len() == 4);
    assert(n == "metal"@ || n == "cobble"@ || n == "metal_panel"@ || n == "copper"@ || n == "weathered_copper"@ ==> roughness_spec(n) == 48u8) by {
    }
    assert(n == "rusted_metal"@ ==> roughness_spec(n) == 112u8) by {
    }
    assert(n == "gold"@ || n == "sand"@ || n == "gold_block"@ ==> roughness_spec(n) == 65u8) by {
    }
    assert(n == "brick"@ ==> roughness_spec(n) == 190u8) by {
        if n == "brick"@ {
            assert("brick"@[0] != "metal"@[0]);
        }
    }
    assert(n == "wood"@ || n == "log_side"@ || n == "log_top"@ || n == "planks"@ ==> roughness_spec(n) == 150u8) by {
        if n == "wood"@ || n == "log_side"@ || n == "log_top"@ || n == "planks"@ {
            assert("wood"@[0] != "gold"@[0]);
            assert("wood"@[0] != "sand"@[0]);
            assert("planks"@[0] != "cobble"@[0]);
            assert("planks"@[0] != "copper"@[0]);
        }
    }
    assert(n == "stone"@ ==> normal_amplitude_spec(n) == 1i16) by {
    }
    assert(n == "brick"@ ==> normal_amplitude_spec(n) == 34i16) by {
        if n == "brick"@ {
            assert("brick"@[0] != "stone"@[0]);
        }
    }
    assert(n == "wood"@ || n == "log_side"@ || n == "log_top"@ || n == "planks"@ ==> normal_amplitude_spec(n) == 22i16) by {
    }
    assert(n == "metal"@ || n == "cobble"@ || n == "metal_panel"@ || n == "rusted_metal"@ || n == "copper"@ || n == "weathered_copper"@ ==> normal_amplitude_spec(n) == 10i16) by {
        if n == "metal"@ || n == "cobble"@ || n == "metal_panel"@ || n == "rusted_metal"@ || n == "copper"@ || n == "weathered_copper"@ {
            assert("metal"@[0] != "stone"@[0]);
            assert("metal"@[0] != "brick"@[0]);
            assert("cobble"@[0] != "planks"@[0]);
            assert("copper"@[0] != "planks"@[0]);
        }
    }
    assert(n == "gold"@ || n == "sand"@ ==> normal_amplitude_spec(n) == 45i16) by {
        if n == "gold"@ || n == "sand"@ {
            assert("gold"@[0] != "wood"@[0]);
            assert("sand"@[0] != "wood"@[0]);
        }
    }
}

/// Light-emitting layers glow at every texel (at least 240 of 255); every
/// other layer emits nothing.
pub proof fn lemma_emission_palette(n: Seq<char>, layer: u64)
    ensures
        n == "emissive"@ || n == "torch"@ || n == "glowstone"@ || n == "sea_lantern"@
            || n == "warm_lamp"@ || n == "cold_lamp"@ || n == "glow_panel"@ ==> forall|i: int|
            0 <= i < 256 ==> #[trigger] base_emission_spec(n, layer)[i] >= 240,
        !(n == "emissive"@ || n == "torch"@ || n == "glowstone"@ || n == "sea_lantern"@
            || n == "warm_lamp"@ || n == "cold_lamp"@ || n == "glow_panel"@) ==> forall|i: int|
            0 <= i < 256 ==> #[trigger] base_emission_spec(n, layer)[i] == 0,
        base_emission_spec(n, layer).len() == 256,
{
}

fn clamp_to_u8(v: i16) -> (b: u8)
    ensures
        b == clamp_u8(v as int),
{
    if v < 0 {
        0
    } else if v > 255 {
        255
    } else {
        v as u8
    }
}

/// The 16x16 RGBA base albedo of a named layer: the layer colour with a
/// hashed per-texel offset, and a hashed cut-out alpha for `leaves`.
pub fn base_albedo(name: &str, layer: u64) -> (out: Vec<u8>)
    ensures
        out@ == base_albedo_spec(name@, layer),
{
    let color = albedo_color(name);
    let stone = str_eq(name, "stone");
    let leaves = str_eq(name, "leaves");
    let mut out: Vec<u8> = Vec::new();
    let mut p: usize = 0;
    while p < 256
        invariant
            p <= 256,
            out@.len() == 4 * p,
            color == albedo_color_spec(name@),
            stone == (name@ == "stone"@),
            leaves == (name@ == "leaves"@),
            forall|i: int| 0 <= i < out@.len() ==> out@[i] == albedo_byte(name@, layer, i),
        decreases 256 - p,
    {
        let x = p % 16;
        let y = p / 16;
        let h = hash(x, y, layer);
        let mut d: i16 = (h % 17) as i16 - 8;
        if stone {
            d = if d == 8 {
                1
            } else if d == -8 {
                -1
            } else {
                0
            };
        }
        assert(d as int == albedo_offset(name@, x, y, layer));
        let alpha: u8 = if leaves {
            (h % 2) * 255
        } else {
            255
        };
        let ghost before = out@;
        out.push(clamp_to_u8(color.0 as i16 + d));
        out.push(clamp_to_u8(color.1 as i16 + d));
        out.push(clamp_to_u8(color.2 as i16 + d));
        out.push(alpha);
        proof {
            assert forall|i: int| 0 <= i < out@.len() implies out@[i] == albedo_byte(
                name@,
                layer,
                i,
            ) by {
                if i >= 4 * p {
                    assert(i / 4 == p as int);
                    assert((i / 4) % 16 == x as int);
                    assert((i / 4) / 16 == y as int);
                } else {
                    assert(out@[i] == before[i]);
                }
            }
        }
        p = p + 1;
    }
    assert(out@ =~= base_albedo_spec(name@, layer));
    out
}

/// Roughness of a named layer.
pub open spec fn roughness_spec(n: Seq<char>) -> u8 {
    if n == "metal"@ || n == "cobble"@ || n == "metal_panel"@ || n == "copper"@ || n
        == "weathered_copper"@ {
        48
    } else if n == "rusted_metal"@ {
        112
    } else if n == "gold"@ || n == "sand"@ || n == "gold_block"@ {
        65
    } else if n == "brick"@ {
        190
    } else if is_wood_name(n) {
        150
    } else {
        210
    }
}

fn roughness(name: &str) -> (r: u8)
    ensures
        r == roughness_spec(name@),
{
    if str_eq(name, "metal") || str_eq(name, "cobble") || str_eq(name, "metal_panel") || str_eq(
        name,
        "copper",
    ) || str_eq(name, "weathered_copper") {
        48
    } else if str_eq(name, "rusted_metal") {
        112
    } else if str_eq(name, "gold") || str_eq(name, "sand") || str_eq(name, "gold_block") {
        65
    } else if str_eq(name, "brick") {
        190
    } else if is_wood(name) {
        150
    } else {
        210
    }
}

/// Strength of the hashed normal perturbation of a named layer.
pub open spec fn normal_amplitude_spec(n: Seq<char>) -> i16 {
    if n == "stone"@ {
        1
    } else if n == "brick"@ {
        34
    } else if is_wood_name(n) {
        22
    } else if n == "metal"@ || n == "cobble"@ || is_metal_panel_name(n) {
        10
    } else if n == "gold"@ || n == "sand"@ {
        45
    } else {
        16
    }
}

fn normal_amplitude(name: &str) -> (a: i16)
    ensures
        a == normal_amplitude_spec(name@),
{
    if str_eq(name, "stone") {
        1
    } else if str_eq(name, "brick") {
        34
    } else if is_wood(name) {
        22
    } else if str_eq(name, "metal") || str_eq(name, "cobble") || is_metal_panel(name) {
        10
    } else if str_eq(name, "gold") || str_eq(name, "sand") {
        45
    } else {
        16
    }
}

/// One tangent-space normal component: `128 + (h - 128) * amplitude / 128`.
pub open spec fn normal_byte(h: u8, amplitude: i16) -> u8 {
    clamp_u8(128 + div_toward_zero((h as int - 128) * amplitude, 128))
}

/// Byte `i` of the 16x16 RGBA material texture (normal xy, roughness,
/// hashed height).
pub open spec fn material_byte(name: Seq<char>, layer: u64, i: int) -> u8 {
    let p = i / 4;
    let c = i % 4;
    let x = (p % 16) as usize;
    let y = (p / 16) as usize;
    let amplitude = normal_amplitude_spec(name);
    if c == 0 {
        normal_byte(hash_spec(x, y, layer), amplitude)
    } else if c == 1 {
        normal_byte(hash_spec(y, x, layer.wrapping_add(0x9e37u64)), amplitude)
    } else if c == 2 {
        roughness_spec(name)
    } else {
        hash_spec(x, y, layer)
    }
}

pub open spec fn base_material_spec(name: Seq<char>, layer: u64) -> Seq<u8> {
    Seq::new(1024, |i: int| material_byte(name, layer, i))
}

fn normal_component(h: u8, amplitude: i16) -> (b: u8)
    requires
        1 <= amplitude <= 45,
    ensures
        b == normal_byte(h, amplitude),
{
    let n: i16 = h as i16 - 128;
    assert(-5760 <= n * amplitude <= 5715) by (nonlinear_arith)
        requires
            -128 <= n <= 127,
            1 <= amplitude <= 45,
    ;
    let prod: i16 = n * amplitude;
    let q: i16 = if prod >= 0 {
        prod / 128
    } else {
        -((-prod) / 128)
    };
    clamp_to_u8(128 + q)
}

/// The 16x16 RGBA material texture of a named layer.
pub fn base_material(name: &str, layer: u64) -> (out: Vec<u8>)
    ensures
        out@ == base_material_spec(name@, layer),
{
    let rough = roughness(name);
    let amplitude = normal_amplitude(name);
    let mut out: Vec<u8> = Vec::new();
    let mut p: usize = 0;
    while p < 256
        invariant
            p <= 256,
            out@.len() == 4 * p,
            rough == roughness_spec(name@),
            amplitude == normal_amplitude_spec(name@),
            forall|i: int| 0 <= i < out@.len() ==> out@[i] == material_byte(name@, layer, i),
        decreases 256 - p,
    {
        let x = p % 16;
        let y = p / 16;
        let h = hash(x, y, layer);
        let hy = hash(y, x, layer.wrapping_add(0x9e37));
        let ghost before = out@;
        out.push(normal_component(h, amplitude));
        out.push(normal_component(hy, amplitude));
        out.push(rough);
        out.push(h);
        proof {
            assert forall|i: int| 0 <= i < out@.len() implies out@[i] == material_byte(
                name@,
                layer,
                i,
            ) by {
                if i >= 4 * p {
                    assert(i / 4 == p as int);
                    assert((i / 4) % 16 == x as int);
                    assert((i / 4) / 16 == y as int);
                } else {
                    assert(out@[i] == before[i]);
                }
            }
        }
        p = p + 1;
    }
    assert(out@ =~= base_material_spec(name@, layer));
    out
}

/// Byte `i` of the 16x16 single-channel emission texture.
pub open spec fn emission_byte(name: Seq<char>, layer: u64, i: int) -> u8 {
    if is_light_name(name) {
        (255 - hash_spec((i % 16) as usize, (i / 16) as usize, layer) % 16) as u8
    } else {
        0
    }
}

pub open spec fn base_emission_spec(name: Seq<char>, layer: u64) -> Seq<u8> {
    Seq::new(256, |i: int| emission_byte(name, layer, i))
}

/// The 16x16 emission texture: lights glow with a hashed flicker, all
/// other layers are dark.
pub fn base_emission(name: &str, layer: u64) -> (out: Vec<u8>)
    ensures
        out@ == base_emission_spec(name@, layer),
{
    let light = is_light(name);
    let value: u8 = if light {
        255
    } else {
        0
    };
    let mut out: Vec<u8> = Vec::new();
    let mut i: usize = 0;
    while i < 256
        invariant
            i <= 256,
            out@.len() == i,
            light == is_light_name(name@),
            value == (if light {
                255u8
            } else {
                0u8
            }),
            forall|j: int| 0 <= j < out@.len() ==> out@[j] == emission_byte(name@, layer, j),
        decreases 256 - i,
    {
        let mut v = value;
        if value > 0 {
            v = v.saturating_sub(hash(i % 16, i / 16, layer) % 16);
        }
        out.push(v);
        i = i + 1;
    }
    assert(out@ =~= base_emission_spec(name@, layer));
    out
}

/// One named material layer with its albedo, material and emission mips.
#[derive(Clone, Debug, PartialEq, Eq)]
pub struct MaterialLayer {
    pub name: String,
    pub albedo: Vec<Mip>,
    pub material: Vec<Mip>,
    pub emission: Vec<Mip>,
}

/// Every material layer, in registry order.
#[derive(Clone, Debug, PartialEq, Eq)]
pub struct MaterialArrays {
    pub layers: Vec<MaterialLayer>,
}

/// `layer` is the procedural layer `index` named `name`.
pub open spec fn procedural_layer(layer: MaterialLayer, name: Seq<char>, index: u64) -> bool {
    &&& layer.name@ == name
    &&& mips_of(layer.albedo@, base_albedo_spec(name, index), 4, name == "leaves"@)
    &&& mips_of(layer.material@, base_material_spec(name, index), 4, false)
    &&& mips_of(layer.emission@, base_emission_spec(name, index), 1, false)
}

/// The GPU array contract: at most the layer cap, five mips per texture,
/// and 16x16 halving albedo mips.
pub open spec fn array_contract(layers: Seq<MaterialLayer>) -> bool {
    &&& layers.len() <= MATERIAL_LAYER_CAP
    &&& forall|l: int|
        0 <= l < layers.len() ==> {
            &&& (#[trigger] layers[l]).albedo@.len() == MATERIAL_MIPS
            &&& layers[l].material@.len() == MATERIAL_MIPS
            &&& layers[l].emission@.len() == MATERIAL_MIPS
            &&& forall|i: int|
                0 <= i < layers[l].albedo@.len() ==> (#[trigger] layers[l].albedo@[i]).width
                    == mip_width(i as nat) && layers[l].albedo@[i].height == mip_width(i as nat)
        }
}

proof fn lemma_mip_widths()
    ensures
        mip_width(0) == 16,
        mip_width(1) == 8,
        mip_width(2) == 4,
        mip_width(3) == 2,
        mip_width(4) == 1,
{
    reveal_with_fuel(mip_width, 5);
}

impl MaterialArrays {
    /// Generate one layer per name, in order: layer `i` is hashed with seed
    /// `i`, and `leaves` keeps its cut-out coverage across mips.
    pub fn procedural(names: &[&str]) -> (arrays: Self)
        requires
            names@.len() <= MATERIAL_LAYER_CAP,
        ensures
            arrays.layers@.len() == names@.len(),
            forall|i: int|
                0 <= i < names@.len() ==> procedural_layer(
                    #[trigger] arrays.layers@[i],
                    names@[i]@,
                    i as u64,
                ),
            array_contract(arrays.layers@),
    {
        proof {
            lemma_mip_widths();
        }
        let mut layers: Vec<MaterialLayer> = Vec::new();
        let mut i: usize = 0;
        while i < names.len()
            invariant
                names@.len() <= MATERIAL_LAYER_CAP,
                i <= names@.len(),
                layers@.len() == i,
                mip_width(0) == 16,
                mip_width(1) == 8,
                mip_width(2) == 4,
                mip_width(3) == 2,
                mip_width(4) == 1,
                forall|j: int|
                    0 <= j < i ==> procedural_layer(#[trigger] layers@[j], names@[j]@, j as u64),
            decreases names@.len() - i,
        {
            let name = names[i];
            let albedo = base_albedo(name, i as u64);
            let material = base_material(name, i as u64);
            let emission = base_emission(name, i as u64);
            let leaves = str_eq(name, "leaves");
            let layer = MaterialLayer {
                name: name.to_owned(),
                albedo: make_mips(albedo.as_slice(), 4, leaves),
                material: make_mips(material.as_slice(), 4, false),
                emission: make_mips(emission.as_slice(), 1, false),
            };
            layers.push(layer);
            i = i + 1;
        }
        let arrays = MaterialArrays { layers };
        assert(array_contract(arrays.layers@)) by {
            assert forall|l: int| 0 <= l < arrays.layers@.len() implies {
                &&& (#[trigger] arrays.layers@[l]).albedo@.len() == MATERIAL_MIPS
                &&& arrays.layers@[l].material@.len() == MATERIAL_MIPS
                &&& arrays.layers@[l].emission@.len() == MATERIAL_MIPS
                &&& forall|i: int|
                    0 <= i < arrays.layers@[l].albedo@.len() ==> (
                    #[trigger] arrays.layers@[l].albedo@[i]).width == mip_width(i as nat)
                        && arrays.layers@[l].albedo@[i].height == mip_width(i as nat)
            } by {
                assert(procedural_layer(arrays.layers@[l], names@[l]@, l as u64));
            }
        }
        arrays
    }

    /// Layer names in array order.
    pub fn layer_names(&self) -> (names: Vec<&str>)
        ensures
            names@.len() == self.layers@.len(),
            forall|i: int| 0 <= i < names@.len() ==> (#[trigger] names@[i])@ == self.layers@[i].name@,
    {
        let mut names: Vec<&str> = Vec::new();
        let mut i: usize = 0;
        while i < self.layers.len()
            invariant
                i <= self.layers@.len(),
                names@.len() == i,
                forall|j: int| 0 <= j < i ==> (#[trigger] names@[j])@ == self.layers@[j].name@,
            decreases self.layers@.len() - i,
        {
            names.push(self.layers[i].name.as_str());
            i = i + 1;
        }
        names
    }

    /// Number of albedo mips of the first layer (zero without layers).
    pub fn mip_count(&self) -> (count: usize)
        ensures
            count == (if self.layers@.len() == 0 {
                0
            } else {
                self.layers@[0].albedo@.len()
            }),
    {
        if self.layers.len() == 0 {
            0
        } else {
            self.layers[0].albedo.len()
        }
    }

    /// Whether the arrays satisfy the GPU array contract.
    pub fn validate_contract(&self) -> (ok: bool)
        ensures
            ok == array_contract(self.layers@),
    {
        proof {
            lemma_mip_widths();
        }
        if self.layers.len() > MATERIAL_LAYER_CAP {
            return false;
        }
        let mut l: usize = 0;
        while l < self.layers.len()
            invariant
                self.layers@.len() <= MATERIAL_LAYER_CAP,
                l <= self.layers@.len(),
                mip_width(0) == 16,
                mip_width(1) == 8,
                mip_width(2) == 4,
                mip_width(3) == 2,
                mip_width(4) == 1,
                forall|j: int|
                    0 <= j < l ==> {
                        &&& (#[trigger] self.layers@[j]).albedo@.len() == MATERIAL_MIPS
                        &&& self.layers@[j].material@.len() == MATERIAL_MIPS
                        &&& self.layers@[j].emission@.len() == MATERIAL_MIPS
                        &&& forall|i: int|
                            0 <= i < self.layers@[j].albedo@.len() ==> (
                            #[trigger] self.layers@[j].albedo@[i]).width == mip_width(i as nat)
                                && self.layers@[j].albedo@[i].height == mip_width(i as nat)
                    },
            decreases self.layers@.len() - l,
        {
            let layer = &self.layers[l];
            if layer.albedo.len() != MATERIAL_MIPS || layer.material.len() != MATERIAL_MIPS
                || layer.emission.len() != MATERIAL_MIPS {
                return false;
            }
            let mut i: usize = 0;
            while i < layer.albedo.len()
                invariant
                    l < self.layers@.len(),
                    *layer == self.layers@[l as int],
                    layer.albedo@.len() == MATERIAL_MIPS,
                    i <= MATERIAL_MIPS,
                    mip_width(0) == 16,
                    mip_width(1) == 8,
                    mip_width(2) == 4,
                    mip_width(3) == 2,
                    mip_width(4) == 1,
                    forall|k: int|
                        0 <= k < i ==> (#[trigger] layer.albedo@[k]).width == mip_width(k as nat)
                            && layer.albedo@[k].height == mip_width(k as nat),
                decreases MATERIAL_MIPS - i,
            {
                let expected = 16usize >> i;
                assert(expected == (if i == 0 {
                    16usize
                } else if i == 1 {
                    8usize
                } else if i == 2 {
                    4usize
                } else if i == 3 {
                    2usize
                } else {
                    1usize
                })) by (bit_vector)
                    requires
                        expected == 16usize >> i,
                        i < 5,
                ;
                let mip = &layer.albedo[i];
                if mip.width != expected || mip.height != expected {
                    assert(self.layers@[l as int].albedo@[i as int] == *mip);
                    return false;
                }
                i = i + 1;
            }
            l = l + 1;
        }
        true
    }
}

} // verus!
