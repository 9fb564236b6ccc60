use synesthesia::routes::{pack_routes, unpack_routes, Route, RouteSlot};
use synesthesia::schema::ModTarget;

fn target(t: &str, p: &str) -> ModTarget {
    ModTarget { target: t.to_string(), param: p.to_string(), exp: false, label: format!("{t}.{p}") }
}

fn route(src: usize, t: &str, p: &str, depth: i32) -> Route<i32> {
    Route { src, target: t.to_string(), param: p.to_string(), depth, exp: depth < 0 }
}

fn targets() -> Vec<ModTarget> {
    vec![target("fm", "fc"), target("fx", "filterFreq"), target("flow", "curl")]
}

#[test]
fn routes_fill_the_slots_in_order_and_the_rest_are_off() {
    let routes = vec![route(0, "fx", "filterFreq", 5), route(1, "flow", "curl", -3)];
    let slots = pack_routes(&routes, &targets(), 4, 3, 0);
    assert_eq!(slots.len(), 3);
    assert!(slots[0].on && slots[0].src == 0 && slots[0].target == 1 && slots[0].depth == 5 && !slots[0].exp);
    assert!(slots[1].on && slots[1].src == 1 && slots[1].target == 2 && slots[1].depth == -3 && slots[1].exp);
    assert!(!slots[2].on && slots[2].src == 0 && slots[2].target == 0 && slots[2].depth == 0);
}

#[test]
fn routes_a_genome_cannot_hold_are_left_out() {
    let routes = vec![
        route(0, "fx", "wah", 1),
        route(9, "fm", "fc", 2),
        route(2, "fm", "fc", 3),
        route(3, "flow", "curl", 4),
        route(1, "fx", "filterFreq", 5),
    ];
    let slots = pack_routes(&routes, &targets(), 4, 2, 0);
    let depths: Vec<i32> = slots.iter().map(|s| s.depth).collect();
    assert_eq!(depths, vec![3, 4], "unknown targets and LFOs are skipped, and only two slots exist");
}

#[test]
fn unpacking_reads_back_what_was_packed() {
    let routes = vec![route(0, "fx", "filterFreq", 5), route(3, "flow", "curl", -3)];
    let back = unpack_routes(&pack_routes(&routes, &targets(), 4, 6, 0), &targets());
    assert_eq!(back.len(), 2);
    for (a, b) in routes.iter().zip(&back) {
        assert_eq!((a.src, &a.target, &a.param, a.depth, a.exp), (b.src, &b.target, &b.param, b.depth, b.exp));
    }
}

#[test]
fn slots_that_are_off_or_aim_nowhere_say_nothing() {
    let slot = |on: bool, target: usize| RouteSlot { on, src: 1, target, depth: 7, exp: false };
    let back = unpack_routes(&vec![slot(false, 0), slot(true, 9), slot(true, 2)], &targets());
    assert_eq!(back.len(), 1);
    assert_eq!((back[0].target.as_str(), back[0].param.as_str()), ("flow", "curl"));
}
