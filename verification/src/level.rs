//! The scene that is rebuilt every frame: one textured sprite behind its
//! texture page command, and a column of tiles that sweep across the screen
//! and back.

use crate::arena::{align_up, ArenaView};
use crate::chain::{has_chain, lemma_chain_of, lemma_terminator_chain};
use crate::graphics::{EnvView, GraphicsEnv, OT_SIZE};
use crate::packet::{
    Color, Command, DrawModeTexPage, Link, Packet, PacketRef, Sprt, TexCoord, Tile, Vertex,
};
use vstd::arithmetic::div_mod::lemma_mod_multiples_basic;
use vstd::prelude::*;

verus! {

/// Tiles in the column.
pub const TILE_COUNT: i16 = 8;

/// Horizontal distance between two neighbouring tiles at frame zero.
pub const TILE_SPACING: i16 = 40;

/// Vertical distance between two neighbouring tiles.
pub const TILE_ROW: i16 = 30;

/// Width of a sweep: a tile moves from 0 to this position and back.
pub const SWEEP: i16 = 280;

/// Frames after which the scene repeats.
pub const FRAME_PERIOD: i16 = 560;

/// Bucket of the sprite and its texture page command.
pub const SPRITE_BUCKET: usize = 1;

/// Bucket of the tiles.
pub const TILE_BUCKET: usize = 2;

/// Packets in a frame: sprite, texture page, tiles.
pub const FRAME_PACKETS: usize = 10;

/// Bytes of arena that a frame takes.
pub const FRAME_BYTES: usize = 160;

/// Where a texture was loaded: its page attribute and, if it has a palette,
/// the attribute of that palette.
#[derive(Clone, Copy, Debug, PartialEq, Eq, Structural)]
pub struct LoadedTexture {
    pub tex_page: u16,
    pub clut: Option<u16>,
}

/// What the scene depends on.
#[derive(Clone, Copy, Debug, PartialEq, Eq, Structural)]
pub struct LevelState {
    pub frame_no: i16,
    pub texture_stone: LoadedTexture,
}

/// Position of tile `i` at frame `frame_no`: a triangle wave of period
/// `FRAME_PERIOD`, each tile `TILE_SPACING` frames ahead of the one before.
pub open spec fn tile_x(frame_no: int, i: int) -> int {
    let phase = (frame_no + TILE_SPACING * i) % (FRAME_PERIOD as int);
    if phase < SWEEP {
        phase
    } else {
        FRAME_PERIOD - phase
    }
}

/// The frame number that follows `frame_no`.
pub open spec fn next_frame(frame_no: int) -> int {
    (frame_no + 1) % (FRAME_PERIOD as int)
}

/// The sprite of the scene.
pub open spec fn sprite_of(texture: LoadedTexture) -> Command {
    Command::Sprt(
        Sprt {
            color: Color { red: 0, green: 0, blue: 0 },
            offset: Vertex { x: 48, y: 48 },
            tex_coord: TexCoord { x: 0, y: 0 },
            clut: match texture.clut {
                Some(clut) => clut,
                None => 0,
            },
            size: Vertex { x: 64, y: 64 },
        },
    )
}

/// The command that selects the texture page of the sprite.
pub open spec fn tex_page_of(texture: LoadedTexture) -> Command {
    Command::DrawModeTexPage(DrawModeTexPage { tex_page: texture.tex_page })
}

/// Tile `i` at frame `frame_no`.
pub open spec fn tile_of(frame_no: int, i: int) -> Command {
    Command::Tile(
        Tile {
            color: Color { red: 255, green: 255, blue: 0 },
            offset: Vertex { x: tile_x(frame_no, i) as i16, y: (TILE_ROW * i) as i16 },
            size: Vertex { x: 40, y: 30 },
        },
    )
}

/// Packet `k` of a frame built over a table whose head links were `heads`.
/// Slot 0 holds the sprite, slot 1 its texture page command, the slots from
/// 2 on the tiles.
pub open spec fn frame_packet(state: LevelState, heads: Seq<Link>, k: int) -> Packet {
    if k == 0 {
        Packet {
            offset: 0,
            len: 20,
            next: heads[SPRITE_BUCKET as int],
            contents: Some(sprite_of(state.texture_stone)),
        }
    } else if k == 1 {
        Packet {
            offset: 24,
            len: 8,
            next: Link::Packet(PacketRef { slot: 0 }),
            contents: Some(tex_page_of(state.texture_stone)),
        }
    } else {
        Packet {
            offset: (32 + 16 * (k - 2)) as usize,
            len: 16,
            next: if k == 2 {
                heads[TILE_BUCKET as int]
            } else {
                Link::Packet(PacketRef { slot: (k - 1) as usize })
            },
            contents: Some(tile_of(state.frame_no as int, k - 2)),
        }
    }
}

/// A buffer set after the sprite, its texture page command and the first
/// `tiles` tiles were added to an empty arena.
pub open spec fn scene_view(state: LevelState, heads: Seq<Link>, tiles: int) -> EnvView {
    EnvView {
        heads: heads.update(SPRITE_BUCKET as int, Link::Packet(PacketRef { slot: 1 })).update(
            TILE_BUCKET as int,
            if tiles == 0 {
                heads[TILE_BUCKET as int]
            } else {
                Link::Packet(PacketRef { slot: (tiles + 1) as usize })
            },
        ),
        arena: ArenaView {
            cursor: (32 + 16 * tiles) as nat,
            packets: Seq::new((2 + tiles) as nat, |k: int| frame_packet(state, heads, k)),
        },
    }
}

/// The buffer set that `update` leaves.
pub open spec fn frame_view(state: LevelState, heads: Seq<Link>) -> EnvView {
    scene_view(state, heads, TILE_COUNT as int)
}

/// The tiles of a frame as their bucket reads them: last added first.
pub open spec fn tile_chain(tiles: int) -> Seq<PacketRef> {
    Seq::new(tiles as nat, |k: int| PacketRef { slot: (tiles + 1 - k) as usize })
}

/// The list that a frame built over an empty table transmits: the tiles,
/// last added first, then the texture page command, then the sprite.
pub open spec fn frame_list() -> Seq<PacketRef> {
    tile_chain(TILE_COUNT as int) + seq![PacketRef { slot: 1 }, PacketRef { slot: 0 }]
}

/// A table whose buckets are all empty.
pub open spec fn empty_heads() -> Seq<Link> {
    Seq::new(OT_SIZE as nat, |b: int| Link::Terminator)
}

impl LevelState {
    /// The frame number lies inside one period.
    pub open spec fn wf(&self) -> bool {
        0 <= self.frame_no < FRAME_PERIOD
    }

    /// The scene at frame zero.
    pub fn new(texture_stone: LoadedTexture) -> (state: Self)
        ensures
            state == (LevelState { frame_no: 0, texture_stone }),
            state.wf(),
    {
        LevelState { frame_no: 0, texture_stone }
    }
}

/// Position of tile `i` at frame `frame_no`.
pub fn tile_x_offset(frame_no: i16, i: i16) -> (x: i16)
    requires
        0 <= frame_no < FRAME_PERIOD,
        0 <= i < TILE_COUNT,
    ensures
        x == tile_x(frame_no as int, i as int),
        0 <= x <= SWEEP,
{
    let orig_pos: i16 = i * TILE_SPACING;
    let lines: i16 = (frame_no + orig_pos) / SWEEP;
    if lines % 2 == 0 {
        (orig_pos + frame_no) % SWEEP
    } else {
        SWEEP - ((orig_pos + frame_no) % SWEEP)
    }
}

/// Rebuilds the scene in `graphics` for the frame that `state` names, then
/// moves `state` on by one frame. The arena is emptied first; the table is
/// taken as it is, so the new packets are linked in front of what its
/// buckets 1 and 2 held. Over a table that was cleared, the set then
/// transmits `frame_list`.
pub fn update(graphics: &mut GraphicsEnv, state: &mut LevelState)
    requires
        old(state).wf(),
    ensures
        final(state).wf(),
        *final(state) == (LevelState {
            frame_no: next_frame(old(state).frame_no as int) as i16,
            texture_stone: old(state).texture_stone,
        }),
        final(graphics)@ == frame_view(*old(state), old(graphics)@.heads),
        final(graphics)@.arena.packets.len() == FRAME_PACKETS,
        final(graphics)@.arena.cursor == FRAME_BYTES,
        final(graphics).buffer.wf(),
        old(graphics)@.heads[SPRITE_BUCKET as int] == Link::Terminator
            ==> final(graphics)@.table().reads(
            SPRITE_BUCKET as int,
            seq![PacketRef { slot: 1 }, PacketRef { slot: 0 }],
        ),
        old(graphics)@.heads[TILE_BUCKET as int] == Link::Terminator
            ==> final(graphics)@.table().reads(TILE_BUCKET as int, tile_chain(TILE_COUNT as int)),
        old(graphics)@.heads == empty_heads() ==> {
            &&& final(graphics)@.table().all_chained()
            &&& final(graphics)@.table().display_list(0) == frame_list()
        },
{
    let ghost heads = graphics@.heads;
    let ghost scene = *state;
    proof {
        graphics.otc.lemma_len();
    }
    graphics.buffer.reset();
    proof {
        // A bucket whose head is the terminator reads as empty, whatever the arena holds.
        lemma_terminator_chain(graphics@.table().links, Seq::empty());
        assert(heads[SPRITE_BUCKET as int] == Link::Terminator ==> graphics@.table().reads(
            SPRITE_BUCKET as int,
            Seq::empty(),
        ));
        assert(heads[TILE_BUCKET as int] == Link::Terminator ==> graphics@.table().reads(
            TILE_BUCKET as int,
            Seq::empty(),
        ));
    }

    // The sprite.
    let clut: u16 = match state.texture_stone.clut {
        Some(clut) => clut,
        None => 0,
    };
    let sprt = Sprt {
        color: Color { red: 0, green: 0, blue: 0 },
        offset: Vertex { x: 48, y: 48 },
        tex_coord: TexCoord { x: 0, y: 0 },
        clut,
        size: Vertex { x: 64, y: 64 },
    };
    let placed = graphics.add_primitive(SPRITE_BUCKET, Command::Sprt(sprt));
    assert(placed is Ok);
    let ghost first = seq![PacketRef { slot: 0 }];
    proof {
        assert(seq![PacketRef { slot: 0 }] + Seq::<PacketRef>::empty() =~= first);
        assert(heads[SPRITE_BUCKET as int] == Link::Terminator ==> graphics@.table().reads(
            SPRITE_BUCKET as int,
            first,
        ));
        assert(heads[TILE_BUCKET as int] == Link::Terminator ==> graphics@.table().reads(
            TILE_BUCKET as int,
            Seq::empty(),
        ));
    }

    // Its texture page command comes in front of it.
    let tpage = DrawModeTexPage { tex_page: state.texture_stone.tex_page };
    let placed = graphics.add_primitive(SPRITE_BUCKET, Command::DrawModeTexPage(tpage));
    assert(placed is Ok);
    let ghost both = seq![PacketRef { slot: 1 }, PacketRef { slot: 0 }];
    proof {
        assert(seq![PacketRef { slot: 1 }] + first =~= both);
        assert(graphics@.heads =~= scene_view(scene, heads, 0).heads);
        assert(graphics@.arena.packets =~= scene_view(scene, heads, 0).arena.packets);
        assert(tile_chain(0) =~= Seq::empty());
    }

    // The tiles.
    let mut i: i16 = 0;
    while i < TILE_COUNT
        invariant
            0 <= i <= TILE_COUNT,
            *state == scene,
            scene.wf(),
            heads.len() == OT_SIZE,
            graphics@ == scene_view(scene, heads, i as int),
            graphics.buffer.wf(),
            heads[SPRITE_BUCKET as int] == Link::Terminator ==> graphics@.table().reads(
                SPRITE_BUCKET as int,
                both,
            ),
            heads[TILE_BUCKET as int] == Link::Terminator ==> graphics@.table().reads(
                TILE_BUCKET as int,
                tile_chain(i as int),
            ),
        decreases TILE_COUNT - i,
    {
        let x_offset: i16 = tile_x_offset(state.frame_no, i);
        let tile = Tile {
            color: Color { red: 255, green: 255, blue: 0 },
            offset: Vertex { x: x_offset, y: i * TILE_ROW },
            size: Vertex { x: 40, y: 30 },
        };
        let ghost before = graphics@;
        proof {
            lemma_mod_multiples_basic(2 + i, 16);
            assert((2 + i) * 16 == before.arena.cursor);
            assert(align_up(before.arena.cursor as int, 16) == before.arena.cursor);
            assert(Command::Tile(tile) == tile_of(scene.frame_no as int, i as int));
        }
        let placed = graphics.add_primitive(TILE_BUCKET, Command::Tile(tile));
        assert(placed is Ok);
        proof {
            let after = scene_view(scene, heads, i + 1);
            assert(graphics@.arena.cursor == after.arena.cursor);
            assert(graphics@.heads =~= after.heads);
            assert(graphics@.arena.packets =~= after.arena.packets);
            assert(seq![PacketRef { slot: (i + 2) as usize }] + tile_chain(i as int)
                =~= tile_chain(i + 1));
        }
        i += 1;
    }
    state.frame_no = (state.frame_no + 1) % FRAME_PERIOD;
    proof {
        if heads == empty_heads() {
            // Every bucket but two is empty; the list is the tiles, then the sprite's two.
            let t = graphics@.table();
            let empty = Seq::<PacketRef>::empty();
            let tiles = tile_chain(TILE_COUNT as int);
            lemma_terminator_chain(t.links, empty);
            lemma_chain_of(t.links, t.heads[SPRITE_BUCKET as int], both);
            lemma_chain_of(t.links, t.heads[TILE_BUCKET as int], tiles);
            assert forall|b: int| 0 <= b < t.heads.len() implies has_chain(
                t.links,
                #[trigger] t.heads[b],
            ) by {
                if b != SPRITE_BUCKET && b != TILE_BUCKET {
                    assert(t.heads[b] == Link::Terminator);
                }
            }
            assert(t.display_list(8) == empty);
            assert(t.display_list(7) =~= empty);
            assert(t.display_list(6) =~= empty);
            assert(t.display_list(5) =~= empty);
            assert(t.display_list(4) =~= empty);
            assert(t.display_list(3) =~= empty);
            assert(t.display_list(2) =~= tiles);
            assert(t.display_list(1) =~= tiles + both);
            assert(t.display_list(0) =~= tiles + both);
        }
    }
}

} // verus!
