//! Primitive packets: a link field, a payload size and one drawable command.
//!
//! A packet is identified by the slot it was carved into. Its link field names
//! the packet that follows it in a chain, or the terminator when it is the
//! last one. The commands are kept as plain values; turning them into the
//! words that the command processor reads is left to whoever writes the
//! packets out.

use vstd::prelude::*;

verus! {

/// Bytes taken by the header word (link and payload size) of every packet.
pub const HEADER_LEN: usize = 4;

/// Payload words of a [`Tile`].
pub const TILE_WORDS: u8 = 3;

/// Payload words of a [`Sprt`].
pub const SPRT_WORDS: u8 = 4;

/// Payload words of a [`DrawModeTexPage`].
pub const DRAW_MODE_WORDS: u8 = 1;

/// Handle of a packet: the position of its slot in the arena that carved it.
#[derive(Clone, Copy, Debug, PartialEq, Eq, Structural)]
pub struct PacketRef {
    pub slot: usize,
}

/// What a link field holds.
#[derive(Clone, Copy, Debug, PartialEq, Eq, Structural)]
pub enum Link {
    /// End of the chain.
    Terminator,
    /// The packet that comes next.
    Packet(PacketRef),
}

/// A position or an extent on screen.
#[derive(Clone, Copy, Debug, PartialEq, Eq, Structural)]
pub struct Vertex {
    pub x: i16,
    pub y: i16,
}

/// A colour, one byte for each channel.
#[derive(Clone, Copy, Debug, PartialEq, Eq, Structural)]
pub struct Color {
    pub red: u8,
    pub green: u8,
    pub blue: u8,
}

/// A coordinate inside a texture page.
#[derive(Clone, Copy, Debug, PartialEq, Eq, Structural)]
pub struct TexCoord {
    pub x: u8,
    pub y: u8,
}

/// Monochrome rectangle of any size.
#[derive(Clone, Copy, Debug, PartialEq, Eq, Structural)]
pub struct Tile {
    pub color: Color,
    pub offset: Vertex,
    pub size: Vertex,
}

/// Textured rectangle of any size.
#[derive(Clone, Copy, Debug, PartialEq, Eq, Structural)]
pub struct Sprt {
    pub color: Color,
    pub offset: Vertex,
    pub tex_coord: TexCoord,
    /// Palette attribute, zero when the texture has none.
    pub clut: u16,
    pub size: Vertex,
}

/// Selects the texture page that the following textured commands read.
#[derive(Clone, Copy, Debug, PartialEq, Eq, Structural)]
pub struct DrawModeTexPage {
    pub tex_page: u16,
}

/// The drawable commands a packet can carry.
#[derive(Clone, Copy, Debug, PartialEq, Eq, Structural)]
pub enum Command {
    Tile(Tile),
    Sprt(Sprt),
    DrawModeTexPage(DrawModeTexPage),
}

/// A carved region of an arena, seen as a packet.
#[derive(Clone, Copy, Debug, PartialEq, Eq, Structural)]
pub struct Packet {
    /// Byte offset of the region inside its arena.
    pub offset: usize,
    /// Byte length of the region.
    pub len: usize,
    /// Link field.
    pub next: Link,
    /// Payload; `None` until the caller assigns one.
    pub contents: Option<Command>,
}

impl Tile {
    /// An all-zero tile.
    pub fn new() -> (t: Tile)
        ensures
            t == (Tile {
                color: Color { red: 0, green: 0, blue: 0 },
                offset: Vertex { x: 0, y: 0 },
                size: Vertex { x: 0, y: 0 },
            }),
    {
        Tile {
            color: Color { red: 0, green: 0, blue: 0 },
            offset: Vertex { x: 0, y: 0 },
            size: Vertex { x: 0, y: 0 },
        }
    }
}

impl Sprt {
    /// An all-zero sprite.
    pub fn new() -> (s: Sprt)
        ensures
            s == (Sprt {
                color: Color { red: 0, green: 0, blue: 0 },
                offset: Vertex { x: 0, y: 0 },
                tex_coord: TexCoord { x: 0, y: 0 },
                clut: 0,
                size: Vertex { x: 0, y: 0 },
            }),
    {
        Sprt {
            color: Color { red: 0, green: 0, blue: 0 },
            offset: Vertex { x: 0, y: 0 },
            tex_coord: TexCoord { x: 0, y: 0 },
            clut: 0,
            size: Vertex { x: 0, y: 0 },
        }
    }
}

impl DrawModeTexPage {
    /// A draw-mode command selecting texture page zero.
    pub fn new() -> (d: DrawModeTexPage)
        ensures
            d == (DrawModeTexPage { tex_page: 0 }),
    {
        DrawModeTexPage { tex_page: 0 }
    }
}

impl Command {
    /// Payload size in 32-bit words.
    pub open spec fn spec_words(self) -> nat {
        match self {
            Command::Tile(_) => TILE_WORDS as nat,
            Command::Sprt(_) => SPRT_WORDS as nat,
            Command::DrawModeTexPage(_) => DRAW_MODE_WORDS as nat,
        }
    }

    /// Bytes of a packet that carries this command: header plus payload.
    pub open spec fn spec_packet_len(self) -> nat {
        HEADER_LEN as nat + 4 * self.spec_words()
    }

    /// Payload size in 32-bit words.
    pub fn words(&self) -> (w: u8)
        ensures
            w as nat == self.spec_words(),
    {
        match self {
            Command::Tile(_) => TILE_WORDS,
            Command::Sprt(_) => SPRT_WORDS,
            Command::DrawModeTexPage(_) => DRAW_MODE_WORDS,
        }
    }

    /// Bytes of a packet that carries this command.
    pub fn packet_len(&self) -> (len: usize)
        ensures
            len as nat == self.spec_packet_len(),
            len > 0,
    {
        let w: u8 = self.words();
        HEADER_LEN + 4 * (w as usize)
    }
}

impl Packet {
    /// A freshly carved packet: no payload yet, linked to nothing.
    pub open spec fn carved(offset: usize, len: usize) -> Packet {
        Packet { offset, len, next: Link::Terminator, contents: None }
    }

    /// First byte past the region.
    pub open spec fn spec_end(self) -> nat {
        (self.offset + self.len) as nat
    }

    /// The size field of the header: payload words, zero while unassigned.
    pub open spec fn spec_size(self) -> nat {
        match self.contents {
            Some(c) => c.spec_words(),
            None => 0,
        }
    }

    /// The size field of the header: payload words, zero while unassigned.
    pub fn size(&self) -> (w: u8)
        ensures
            w as nat == self.spec_size(),
    {
        match &self.contents {
            Some(c) => c.words(),
            None => 0,
        }
    }
}

} // verus!
