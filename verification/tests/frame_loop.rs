use display_list::frame_loop::{FrameAction, FrameError, FrameEvent, FrameLoop, Phase};
use display_list::graphics::GraphicsEnv;
use display_list::level::{update, LevelState, LoadedTexture};
use display_list::packet::{Color, Command, PacketRef, Tile, Vertex};

fn stone() -> LoadedTexture {
    LoadedTexture { tex_page: 2, clut: None }
}

fn first_tile_x(env: &GraphicsEnv) -> Option<i16> {
    match env.buffer.packet(PacketRef { slot: 2 })?.contents? {
        Command::Tile(tile) => Some(tile.offset.x),
        _ => None,
    }
}

fn marker(n: i16) -> Command {
    Command::Tile(Tile {
        color: Color { red: 0, green: 0, blue: 0 },
        offset: Vertex { x: n, y: 0 },
        size: Vertex { x: 1, y: 1 },
    })
}

fn run_frame(frame_loop: &mut FrameLoop, level: &mut LevelState) {
    assert_eq!(frame_loop.step(FrameEvent::TableCleared), FrameAction::Build);
    update(frame_loop.draw_mut(), level);
    assert_eq!(frame_loop.step(FrameEvent::SceneBuilt), FrameAction::WaitDrawSync);
    assert_eq!(frame_loop.step(FrameEvent::DrawSynced), FrameAction::WaitVblank);
    assert_eq!(frame_loop.step(FrameEvent::Vblank), FrameAction::SwapVisible);
    assert_eq!(frame_loop.step(FrameEvent::Presented), FrameAction::Transmit);
}

#[test]
fn loop_starts_waiting_for_the_setup() {
    let frame_loop = FrameLoop::new();
    assert_eq!(frame_loop.current_phase(), Phase::Starting);
    assert_eq!(*frame_loop.display(), GraphicsEnv::new());
    assert_eq!(*frame_loop.draw(), GraphicsEnv::new());
}

#[test]
fn one_frame_runs_through_every_phase() {
    let mut frame_loop = FrameLoop::new();
    assert_eq!(frame_loop.step(FrameEvent::Initialized), FrameAction::Transmit);
    assert_eq!(frame_loop.current_phase(), Phase::InFlight);
    assert_eq!(frame_loop.step(FrameEvent::TableCleared), FrameAction::Build);
    assert_eq!(frame_loop.current_phase(), Phase::Building);
    assert_eq!(frame_loop.step(FrameEvent::SceneBuilt), FrameAction::WaitDrawSync);
    assert_eq!(frame_loop.current_phase(), Phase::AwaitDrawSync);
    assert_eq!(frame_loop.step(FrameEvent::DrawSynced), FrameAction::WaitVblank);
    assert_eq!(frame_loop.current_phase(), Phase::AwaitVblank);
    assert_eq!(frame_loop.step(FrameEvent::Vblank), FrameAction::SwapVisible);
    assert_eq!(frame_loop.current_phase(), Phase::AwaitPresent);
    assert_eq!(frame_loop.step(FrameEvent::Presented), FrameAction::Transmit);
    assert_eq!(frame_loop.current_phase(), Phase::InFlight);
}

#[test]
fn display_set_is_what_the_frame_before_built() {
    let mut frame_loop = FrameLoop::new();
    assert_eq!(frame_loop.step(FrameEvent::Initialized), FrameAction::Transmit);
    let mut committed = GraphicsEnv::new();
    for frame in 0..3i16 {
        // The list is in flight: the hardware reads the display set.
        let shown = frame_loop.display().clone();
        assert_eq!(shown, committed);
        assert_eq!(shown.buffer.len(), frame as usize);

        // The draw set is built packet by packet; the display set does not move.
        assert_eq!(frame_loop.step(FrameEvent::TableCleared), FrameAction::Build);
        assert_eq!(*frame_loop.draw(), GraphicsEnv::new());
        for n in 0..=frame {
            frame_loop.draw_mut().add_primitive(0, marker(100 * frame + n)).expect("fits");
            assert_eq!(*frame_loop.display(), shown);
        }
        committed = frame_loop.draw().clone();
        assert_eq!(committed.buffer.len(), frame as usize + 1);

        assert_eq!(frame_loop.step(FrameEvent::SceneBuilt), FrameAction::WaitDrawSync);
        assert_eq!(frame_loop.step(FrameEvent::DrawSynced), FrameAction::WaitVblank);
        assert_eq!(frame_loop.step(FrameEvent::Vblank), FrameAction::SwapVisible);
        assert_eq!(*frame_loop.display(), shown);
        assert_eq!(*frame_loop.draw(), committed);
        assert_eq!(frame_loop.step(FrameEvent::Presented), FrameAction::Transmit);
        assert_eq!(*frame_loop.display(), committed);
    }
}

#[test]
fn scene_of_one_frame_is_shown_in_the_next() {
    let mut frame_loop = FrameLoop::new();
    let mut level = LevelState::new(stone());
    frame_loop.step(FrameEvent::Initialized);
    for frame in 0..3i16 {
        if frame > 0 {
            assert_eq!(first_tile_x(frame_loop.display()), Some(frame - 1));
        } else {
            assert_eq!(first_tile_x(frame_loop.display()), None);
        }
        assert_eq!(level.frame_no, frame);
        assert_eq!(frame_loop.step(FrameEvent::TableCleared), FrameAction::Build);
        update(frame_loop.draw_mut(), &mut level);
        assert_eq!(first_tile_x(frame_loop.draw()), Some(frame));
        frame_loop.step(FrameEvent::SceneBuilt);
        frame_loop.step(FrameEvent::DrawSynced);
        frame_loop.step(FrameEvent::Vblank);
        frame_loop.step(FrameEvent::Presented);
        assert_eq!(first_tile_x(frame_loop.display()), Some(frame));
    }
}

#[test]
fn first_transmission_is_empty() {
    let mut frame_loop = FrameLoop::new();
    frame_loop.step(FrameEvent::Initialized);
    assert_eq!(frame_loop.transmission(), Some(vec![]));
}

#[test]
fn second_transmission_carries_the_first_scene() {
    let mut frame_loop = FrameLoop::new();
    let mut level = LevelState::new(stone());
    frame_loop.step(FrameEvent::Initialized);
    run_frame(&mut frame_loop, &mut level);
    let list: Vec<usize> = frame_loop
        .transmission()
        .expect("every bucket has a chain")
        .iter()
        .map(|p| p.slot)
        .collect();
    assert_eq!(list, vec![9, 8, 7, 6, 5, 4, 3, 2, 1, 0]);
}

#[test]
fn cleared_table_empties_the_draw_set() {
    let mut frame_loop = FrameLoop::new();
    let mut level = LevelState::new(stone());
    frame_loop.step(FrameEvent::Initialized);
    run_frame(&mut frame_loop, &mut level);
    run_frame(&mut frame_loop, &mut level);
    // Both sets hold a scene now.
    assert_eq!(frame_loop.draw().buffer.len(), 10);
    assert_eq!(frame_loop.display().buffer.len(), 10);
    let shown = frame_loop.display().clone();
    assert_eq!(frame_loop.step(FrameEvent::TableCleared), FrameAction::Build);
    assert_eq!(*frame_loop.draw(), GraphicsEnv::new());
    assert_eq!(*frame_loop.display(), shown);
}

#[test]
fn failed_setup_stops_the_loop() {
    let mut frame_loop = FrameLoop::new();
    assert_eq!(
        frame_loop.step(FrameEvent::InitFailed),
        FrameAction::Report(FrameError::InitFailed)
    );
    assert_eq!(frame_loop.current_phase(), Phase::Stopped(FrameError::InitFailed));
    assert_eq!(
        frame_loop.step(FrameEvent::Initialized),
        FrameAction::Report(FrameError::InitFailed)
    );
    assert_eq!(frame_loop.current_phase(), Phase::Stopped(FrameError::InitFailed));
}

#[test]
fn failed_table_clear_stops_the_loop() {
    let mut frame_loop = FrameLoop::new();
    frame_loop.step(FrameEvent::Initialized);
    let before = frame_loop.clone();
    assert_eq!(
        frame_loop.step(FrameEvent::TransferFailed),
        FrameAction::Report(FrameError::TransferFailed)
    );
    assert_eq!(frame_loop.current_phase(), Phase::Stopped(FrameError::TransferFailed));
    assert_eq!(*frame_loop.draw(), *before.draw());
    assert_eq!(*frame_loop.display(), *before.display());
    assert_eq!(
        frame_loop.step(FrameEvent::TableCleared),
        FrameAction::Report(FrameError::TransferFailed)
    );
}

#[test]
fn failed_transfer_while_building_stops_the_loop() {
    let mut frame_loop = FrameLoop::new();
    frame_loop.step(FrameEvent::Initialized);
    frame_loop.step(FrameEvent::TableCleared);
    assert_eq!(
        frame_loop.step(FrameEvent::TransferFailed),
        FrameAction::Report(FrameError::TransferFailed)
    );
    assert_eq!(frame_loop.current_phase(), Phase::Stopped(FrameError::TransferFailed));
}

#[test]
fn failed_transfer_after_the_build_stops_the_loop() {
    let mut frame_loop = FrameLoop::new();
    frame_loop.step(FrameEvent::Initialized);
    frame_loop.step(FrameEvent::TableCleared);
    frame_loop.step(FrameEvent::SceneBuilt);
    assert_eq!(
        frame_loop.step(FrameEvent::TransferFailed),
        FrameAction::Report(FrameError::TransferFailed)
    );
    assert_eq!(frame_loop.current_phase(), Phase::Stopped(FrameError::TransferFailed));
}

#[test]
fn event_out_of_order_is_rejected() {
    let mut frame_loop = FrameLoop::new();
    let fresh = frame_loop.clone();
    for event in [
        FrameEvent::TableCleared,
        FrameEvent::TransferFailed,
        FrameEvent::SceneBuilt,
        FrameEvent::DrawSynced,
        FrameEvent::Vblank,
        FrameEvent::Presented,
    ] {
        assert_eq!(frame_loop.step(event), FrameAction::Rejected);
        assert_eq!(frame_loop, fresh);
    }
    frame_loop.step(FrameEvent::Initialized);
    let in_flight = frame_loop.clone();
    for event in [
        FrameEvent::Initialized,
        FrameEvent::InitFailed,
        FrameEvent::SceneBuilt,
        FrameEvent::DrawSynced,
        FrameEvent::Vblank,
        FrameEvent::Presented,
    ] {
        assert_eq!(frame_loop.step(event), FrameAction::Rejected);
        assert_eq!(frame_loop, in_flight);
    }
}

#[test]
fn draw_set_is_emptied_once_per_frame() {
    let mut frame_loop = FrameLoop::new();
    frame_loop.step(FrameEvent::Initialized);
    frame_loop.step(FrameEvent::TableCleared);
    frame_loop.draw_mut().add_primitive(0, marker(1)).expect("fits");
    let building = frame_loop.clone();
    assert_eq!(frame_loop.step(FrameEvent::TableCleared), FrameAction::Rejected);
    assert_eq!(frame_loop, building);
    assert_eq!(frame_loop.draw().buffer.len(), 1);
}

#[test]
fn vblank_before_draw_sync_is_rejected() {
    let mut frame_loop = FrameLoop::new();
    frame_loop.step(FrameEvent::Initialized);
    frame_loop.step(FrameEvent::TableCleared);
    frame_loop.step(FrameEvent::SceneBuilt);
    assert_eq!(frame_loop.step(FrameEvent::Vblank), FrameAction::Rejected);
    assert_eq!(frame_loop.step(FrameEvent::Presented), FrameAction::Rejected);
    assert_eq!(frame_loop.current_phase(), Phase::AwaitDrawSync);
}

#[test]
fn transfer_failure_outside_a_transfer_is_rejected() {
    let mut frame_loop = FrameLoop::new();
    frame_loop.step(FrameEvent::Initialized);
    frame_loop.step(FrameEvent::TableCleared);
    frame_loop.step(FrameEvent::SceneBuilt);
    frame_loop.step(FrameEvent::DrawSynced);
    assert_eq!(frame_loop.step(FrameEvent::TransferFailed), FrameAction::Rejected);
    assert_eq!(frame_loop.current_phase(), Phase::AwaitVblank);
    frame_loop.step(FrameEvent::Vblank);
    assert_eq!(frame_loop.step(FrameEvent::TransferFailed), FrameAction::Rejected);
    assert_eq!(frame_loop.current_phase(), Phase::AwaitPresent);
}

#[test]
fn roles_alternate_over_a_period_of_frames() {
    let mut frame_loop = FrameLoop::new();
    let mut level = LevelState::new(stone());
    frame_loop.step(FrameEvent::Initialized);
    for _ in 0..560 {
        run_frame(&mut frame_loop, &mut level);
    }
    assert_eq!(level.frame_no, 0);
    assert_eq!(first_tile_x(frame_loop.display()), Some(1));
    assert_eq!(first_tile_x(frame_loop.draw()), Some(2));
}
