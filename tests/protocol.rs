use softbody::collection::SoftBodyCollection;
use softbody::drag::{toggle_on_click, DragState};
use softbody::mailbox::{Mailbox, SendOutcome};
use softbody::protocol::SimLoop;

#[derive(Clone, Debug, PartialEq)]
struct Body {
    id: u32,
    steps: u32,
}

fn body(id: u32) -> Body {
    Body { id, steps: 0 }
}

fn step_body(b: Body) -> Body {
    Body { id: b.id, steps: b.steps + 1 }
}

#[test]
fn mailbox_keeps_newest() {
    let mut m = Mailbox::new();
    assert_eq!(m.send(1), SendOutcome::Delivered);
    assert_eq!(m.send(2), SendOutcome::Delivered);
    assert_eq!(m.send(3), SendOutcome::Delivered);
    assert_eq!(m.take_latest(), Some(3));
    assert_eq!(m.take_latest(), None);
}

#[test]
fn mailbox_closed_drops() {
    let mut m: Mailbox<u8> = Mailbox::new();
    m.close();
    assert!(m.is_closed());
    assert_eq!(m.send(7), SendOutcome::PeerGone);
    assert_eq!(m.take_latest(), None);
}

#[test]
fn latest_edit_wins_after_three_sends() {
    let mut edits = Mailbox::new();
    let mut pauses = Mailbox::new();
    let sim = SimLoop::new(vec![0u32]);
    edits.send(vec![1]);
    edits.send(vec![2]);
    edits.send(vec![3]);
    let (sim, stepped) = sim.tick(&mut edits, &mut pauses, |mut w: Vec<u32>| {
        w.push(99);
        w
    });
    assert!(stepped);
    assert_eq!(sim.world, vec![3, 99]);
    assert_eq!(edits.take_latest(), None);
}

#[test]
fn paused_tick_adopts_without_stepping() {
    let mut edits = Mailbox::new();
    let mut pauses = Mailbox::new();
    let sim = SimLoop::new(5u32);
    pauses.send(false);
    pauses.send(true);
    edits.send(8);
    let (sim, stepped) = sim.tick(&mut edits, &mut pauses, |w: u32| w + 1);
    assert!(!stepped);
    assert!(sim.paused);
    assert_eq!(sim.world, 8);
    pauses.send(false);
    let (sim, stepped) = sim.tick(&mut edits, &mut pauses, |w: u32| w + 1);
    assert!(stepped);
    assert_eq!(sim.world, 9);
}

#[test]
fn tick_without_messages_steps_current_world() {
    let mut edits: Mailbox<u32> = Mailbox::new();
    let mut pauses = Mailbox::new();
    let (sim, stepped) = SimLoop::new(1u32).tick(&mut edits, &mut pauses, |w: u32| w * 10);
    assert!(stepped);
    assert!(!sim.paused);
    assert_eq!(sim.world, 10);
}

#[test]
fn loop_stops_when_peer_gone() {
    let mut sim = SimLoop::new(0u8);
    sim.published(SendOutcome::Delivered);
    assert!(sim.running);
    sim.published(SendOutcome::PeerGone);
    assert!(!sim.running);
    sim.published(SendOutcome::Delivered);
    assert!(!sim.running);
}

#[test]
fn collection_steps_each_body_once_in_order() {
    let mut c = SoftBodyCollection::new();
    c.add(body(1));
    c.add(body(2));
    c.add(body(3));
    c.update(step_body);
    assert_eq!(c.len(), 3);
    let ids: Vec<u32> = c.softbodies.iter().map(|b| b.id).collect();
    assert_eq!(ids, vec![1, 2, 3]);
    assert!(c.softbodies.iter().all(|b| b.steps == 1));
}

#[test]
fn collection_add_appends() {
    let mut c = SoftBodyCollection::new();
    assert_eq!(c.len(), 0);
    c.add(body(7));
    c.add(body(4));
    assert_eq!(c.softbodies, vec![body(7), body(4)]);
}

#[test]
fn collection_edit_one_body() {
    let mut c = SoftBodyCollection::new();
    c.add(body(1));
    c.add(body(2));
    assert!(c.edit(1, step_body));
    assert_eq!(c.softbodies, vec![body(1), Body { id: 2, steps: 1 }]);
    assert!(!c.edit(2, step_body));
    assert_eq!(c.softbodies, vec![body(1), Body { id: 2, steps: 1 }]);
}

#[test]
fn drag_press_and_release() {
    let mut d = DragState::new();
    assert_eq!(d.target(), None);
    d.press(Some((1, 4)));
    assert_eq!(d.target(), Some((1, 4)));
    d.release();
    assert_eq!(d.target(), None);
    d.press(None);
    assert!(d.mouse_down);
    assert_eq!(d.target(), None);
}

#[test]
fn pause_toggles_only_on_hit() {
    assert!(toggle_on_click(true, false));
    assert!(!toggle_on_click(true, true));
    assert!(toggle_on_click(false, true));
    assert!(!toggle_on_click(false, false));
}
