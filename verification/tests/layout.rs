use dswm::client::Client;
use dswm::layout::{Layout, LayoutError};

fn rect(c: &Client) -> (i32, i32, u16, u16) {
    (c.pos_x, c.pos_y, c.width, c.height)
}

fn window_of(l: &Layout, i: usize) -> u32 {
    l.clients[i].window
}

#[test]
fn single_window_fills_viewport() {
    let mut l = Layout::new(1920, 1080);
    l.position_new_client(Client::new(1, 0, 0, 0, 0));
    assert_eq!(l.clients.len(), 1);
    assert_eq!(rect(&l.clients[0]), (0, 0, 1920, 1080));
}

#[test]
fn second_window_becomes_master() {
    let mut l = Layout::new(1920, 1080);
    l.position_new_client(Client::new(1, 0, 0, 0, 0));
    l.position_new_client(Client::new(2, 0, 0, 0, 0));
    // the new window (B) is master in the left half; A fills the stack
    assert_eq!(window_of(&l, 1), 2);
    assert_eq!(rect(&l.clients[1]), (0, 0, 960, 1080));
    assert_eq!(window_of(&l, 0), 1);
    assert_eq!(rect(&l.clients[0]), (960, 0, 960, 1080));
}

#[test]
fn three_windows_master_stack() {
    let mut l = Layout::new(1920, 1080);
    l.position_new_client(Client::new(1, 0, 0, 0, 0)); // A
    l.position_new_client(Client::new(2, 0, 0, 0, 0)); // B
    l.position_new_client(Client::new(3, 0, 0, 0, 0)); // C
    // C is master; the stack holds A and B in insertion order, each
    // half the viewport height
    assert_eq!(window_of(&l, 2), 3);
    assert_eq!(rect(&l.clients[2]), (0, 0, 960, 1080));
    assert_eq!(window_of(&l, 0), 1);
    assert_eq!(rect(&l.clients[0]), (960, 0, 960, 540));
    assert_eq!(window_of(&l, 1), 2);
    assert_eq!(rect(&l.clients[1]), (960, 540, 960, 540));
}

#[test]
fn remove_keeps_master_and_focus() {
    let mut l = Layout::new(1920, 1080);
    l.position_new_client(Client::new(1, 0, 0, 0, 0)); // A
    l.position_new_client(Client::new(2, 0, 0, 0, 0)); // B
    l.position_new_client(Client::new(3, 0, 0, 0, 0)); // C
    // remove B: C remains master, A fills the whole stack again
    let r = l.remove_client(1);
    assert!(r.is_ok());
    assert_eq!(l.clients.len(), 2);
    assert_eq!(window_of(&l, 1), 3);
    assert_eq!(rect(&l.clients[1]), (0, 0, 960, 1080));
    assert_eq!(window_of(&l, 0), 1);
    assert_eq!(rect(&l.clients[0]), (960, 0, 960, 1080));
    assert_eq!(l.get_client_to_focus().unwrap().window, 3);
}

#[test]
fn focus_candidate_is_most_recent_survivor() {
    let mut l = Layout::new(800, 600);
    l.position_new_client(Client::new(1, 0, 0, 0, 0)); // A
    l.position_new_client(Client::new(2, 0, 0, 0, 0)); // B
    l.position_new_client(Client::new(3, 0, 0, 0, 0)); // C
    assert_eq!(l.get_client_to_focus().unwrap().window, 3);
    // removing C makes B, not A, the focus candidate
    let r = l.remove_client(2);
    assert!(r.is_ok());
    assert_eq!(l.get_client_to_focus().unwrap().window, 2);
}

#[test]
fn remove_out_of_range_leaves_layout_untouched() {
    let mut l = Layout::new(640, 480);
    l.position_new_client(Client::new(7, 0, 0, 0, 0));
    let before: Vec<(i32, i32, u16, u16)> = l.clients.iter().map(rect).collect();
    let r = l.remove_client(5);
    assert!(matches!(r, Err(LayoutError::OutOfRange)));
    let after: Vec<(i32, i32, u16, u16)> = l.clients.iter().map(rect).collect();
    assert_eq!(before, after);
    assert_eq!(l.clients.len(), 1);
    assert_eq!(l.clients[0].window, 7);
}

#[test]
fn focus_on_empty_layout_signals_empty() {
    let l = Layout::new(640, 480);
    let r = l.get_client_to_focus();
    assert!(matches!(r, Err(LayoutError::Empty)));
}

#[test]
fn relayout_twice_gives_identical_geometry() {
    let mut l = Layout::new(1001, 773);
    l.position_new_client(Client::new(1, 0, 0, 0, 0));
    l.position_new_client(Client::new(2, 0, 0, 0, 0));
    l.position_new_client(Client::new(3, 0, 0, 0, 0));
    let first: Vec<(i32, i32, u16, u16)> = l.clients.iter().map(rect).collect();
    l.reorder_clients();
    let second: Vec<(i32, i32, u16, u16)> = l.clients.iter().map(rect).collect();
    assert_eq!(first, second);
}

#[test]
fn stack_coverage_gap_is_remainder() {
    // viewport 100 rows, 4 windows: 3 stack slots of floor(100/3) = 33
    // rows; the bottom 100 - 99 = 1 row stays uncovered
    let mut l = Layout::new(200, 100);
    for w in 1..=4u32 {
        l.position_new_client(Client::new(w, 0, 0, 0, 0));
    }
    let mut total: u16 = 0;
    for i in 0..3usize {
        assert_eq!(l.clients[i].height, 33);
        assert_eq!(l.clients[i].pos_y, (i as i32) * 33);
        total += l.clients[i].height;
    }
    assert_eq!(total, 99);
    assert!(total < 100);
    assert_eq!(100 - total, 100 % 3);
}

fn disjoint(a: &Client, b: &Client) -> bool {
    a.width == 0 || a.height == 0 || b.width == 0 || b.height == 0
        || a.pos_x + a.width as i32 <= b.pos_x
        || b.pos_x + b.width as i32 <= a.pos_x
        || a.pos_y + a.height as i32 <= b.pos_y
        || b.pos_y + b.height as i32 <= a.pos_y
}

#[test]
fn rectangles_pairwise_disjoint_after_operations() {
    let mut l = Layout::new(1366, 768);
    for w in 1..=5u32 {
        l.position_new_client(Client::new(w, 0, 0, 0, 0));
    }
    let _ = l.remove_client(2);
    let _ = l.remove_client(0);
    l.position_new_client(Client::new(9, 0, 0, 0, 0));
    for i in 0..l.clients.len() {
        for j in 0..l.clients.len() {
            if i != j {
                assert!(disjoint(&l.clients[i], &l.clients[j]));
            }
        }
    }
}

#[test]
fn reconfigure_flag_raised_by_mutators() {
    let mut c = Client::new(4, 1, 2, 3, 4);
    assert!(!c.reconfigure);
    c.set_pos(10, 20);
    assert!(c.reconfigure);
    assert_eq!((c.pos_x, c.pos_y), (10, 20));
    let mut d = Client::new(5, 0, 0, 0, 0);
    d.set_size(300, 200);
    assert!(d.reconfigure);
    assert_eq!((d.width, d.height), (300, 200));
}
