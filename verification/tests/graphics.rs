use display_list::arena::GraphicsBufferFullError;
use display_list::graphics::{
    get_disp_and_draw, init_graphics, GraphicsEnv, GraphicsState, Side, BUF_SIZE, OT_SIZE,
};
use display_list::packet::{Color, Command, DrawModeTexPage, Link, PacketRef, Tile, Vertex};

fn tile(x: i16) -> Command {
    Command::Tile(Tile {
        color: Color { red: 1, green: 2, blue: 3 },
        offset: Vertex { x, y: 0 },
        size: Vertex { x: 40, y: 30 },
    })
}

#[test]
fn fresh_state_has_two_empty_sets() {
    let state = init_graphics();
    assert!(!state.is_swapped());
    assert_eq!(state, GraphicsState::new());
    for side in [Side::A, Side::B] {
        let env = state.env(side);
        assert_eq!(*env, GraphicsEnv::new());
        assert_eq!(env.otc.len(), OT_SIZE);
        assert_eq!(env.buffer.capacity(), BUF_SIZE);
        assert_eq!(env.buffer.index(), 0);
    }
}

#[test]
fn fresh_state_draws_b_until_the_first_swap() {
    let state = init_graphics();
    assert_eq!(state.current_draw_side(), Side::B);
    assert_eq!(state.current_display_side(), Side::A);
}

#[test]
fn swap_alternates_the_roles() {
    let mut state = init_graphics();
    let mut seen: Vec<(Side, Side)> = Vec::new();
    for _ in 0..6 {
        state.swap();
        seen.push((state.current_draw_side(), state.current_display_side()));
    }
    assert_eq!(
        seen,
        vec![
            (Side::A, Side::B),
            (Side::B, Side::A),
            (Side::A, Side::B),
            (Side::B, Side::A),
            (Side::A, Side::B),
            (Side::B, Side::A),
        ]
    );
}

#[test]
fn swap_flips_the_flag_every_call() {
    let mut state = init_graphics();
    state.swap();
    assert!(state.is_swapped());
    state.swap();
    assert!(!state.is_swapped());
    state.swap();
    assert!(state.is_swapped());
}

#[test]
fn flip_exchanges_the_roles_and_keeps_the_sets() {
    let mut state = init_graphics();
    {
        let (_, draw) = get_disp_and_draw(&mut state);
        draw.add_primitive(0, tile(5)).expect("fits");
    }
    let built = state.env(Side::B).clone();
    state.flip();
    assert!(state.is_swapped());
    assert_eq!(state.current_display_side(), Side::B);
    assert_eq!(*state.env(Side::B), built);
    assert_eq!(*state.env(Side::A), GraphicsEnv::new());
}

#[test]
fn writing_the_draw_set_leaves_the_display_set_alone() {
    let mut state = init_graphics();
    {
        let (disp, draw) = state.swap();
        let shown = disp.clone();
        draw.add_primitive(2, tile(1)).expect("fits");
        draw.add_primitive(2, tile(2)).expect("fits");
        assert_eq!(*disp, shown);
        assert_eq!(disp.buffer.index(), 0);
        assert_eq!(draw.buffer.index(), 32);
    }
    assert_eq!(state.env(Side::A).buffer.len(), 2);
    assert_eq!(state.env(Side::B).buffer.len(), 0);
}

#[test]
fn what_was_built_is_shown_after_the_swap() {
    let mut state = init_graphics();
    let built = {
        let (_, draw) = state.swap();
        draw.add_primitive(1, tile(9)).expect("fits");
        draw.clone()
    };
    let (disp, draw) = state.swap();
    assert_eq!(*disp, built);
    assert_eq!(*draw, GraphicsEnv::new());
}

#[test]
fn get_disp_and_draw_follows_the_flag() {
    let mut state = init_graphics();
    {
        let (_, draw) = get_disp_and_draw(&mut state);
        draw.add_primitive(0, tile(1)).expect("fits");
    }
    assert!(!state.is_swapped());
    assert_eq!(state.env(Side::B).buffer.len(), 1);
    assert_eq!(state.env(Side::A).buffer.len(), 0);
    state.flip();
    {
        let (disp, draw) = get_disp_and_draw(&mut state);
        assert_eq!(disp.buffer.len(), 1);
        draw.add_primitive(0, tile(1)).expect("fits");
        draw.add_primitive(0, tile(2)).expect("fits");
    }
    assert_eq!(state.env(Side::A).buffer.len(), 2);
    assert_eq!(state.env(Side::B).buffer.len(), 1);
}

#[test]
fn add_primitive_carves_assigns_and_links() {
    let mut env = GraphicsEnv::new();
    let first = env.add_primitive(3, tile(10)).expect("fits");
    let second = env
        .add_primitive(3, Command::DrawModeTexPage(DrawModeTexPage { tex_page: 7 }))
        .expect("fits");
    assert_eq!(first, PacketRef { slot: 0 });
    assert_eq!(second, PacketRef { slot: 1 });
    let p = env.buffer.packet(first).expect("carved");
    let q = env.buffer.packet(second).expect("carved");
    assert_eq!((p.offset, p.len, p.next), (0, 16, Link::Terminator));
    assert_eq!((q.offset, q.len, q.next), (16, 8, Link::Packet(first)));
    assert_eq!(p.contents, Some(tile(10)));
    assert_eq!(q.size(), 1);
    assert_eq!(env.otc.head_link(3), Link::Packet(second));
    assert_eq!(env.otc.chain(&env.buffer, 3), Some(vec![second, first]));
    assert_eq!(env.buffer.index(), 24);
}

#[test]
fn full_arena_drops_the_primitive_and_keeps_the_frame() {
    let mut env = GraphicsEnv::new();
    for _ in 0..(BUF_SIZE / 16) {
        env.add_primitive(0, tile(0)).expect("fits");
    }
    assert_eq!(env.buffer.index(), BUF_SIZE);
    let before = env.clone();
    assert_eq!(
        env.add_primitive(0, tile(0)),
        Err(GraphicsBufferFullError { index: BUF_SIZE, packet_len: 16, max_len: BUF_SIZE })
    );
    assert_eq!(env, before);
    let chain = env.otc.chain(&env.buffer, 0).expect("the chain is whole");
    assert_eq!(chain.len(), BUF_SIZE / 16);
    assert_eq!(chain[0], PacketRef { slot: BUF_SIZE / 16 - 1 });
    assert_eq!(chain[chain.len() - 1], PacketRef { slot: 0 });
}

#[test]
fn clear_empties_the_set() {
    let mut env = GraphicsEnv::new();
    env.add_primitive(0, tile(1)).expect("fits");
    env.add_primitive(7, tile(2)).expect("fits");
    env.clear();
    assert_eq!(env, GraphicsEnv::new());
    assert_eq!(env.buffer.index(), 0);
    assert_eq!(env.otc.head_link(7), Link::Terminator);
}
