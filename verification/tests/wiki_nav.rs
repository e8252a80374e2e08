use nanofile_service::error::AppError;
use nanofile_service::wiki_nav::{
    add_nav_page, insert_nav_node, move_nav_page, nav_position, new_nav_page, remove_nav_node,
    NavChildren, NavEdit, NavNode, NavPlaceResult, NavPosition,
};

fn leaf(id: &str) -> NavNode {
    new_nav_page(id)
}

fn with_kids(id: &str, kids: Vec<NavNode>) -> NavNode {
    let mut n = new_nav_page(id);
    n.children = NavChildren::Nodes(kids);
    n
}

/// The tree as `id(child,child)` text, for comparisons.
fn shape(nav: &[NavNode]) -> String {
    let mut parts = Vec::new();
    for n in nav {
        let id = n.id.clone().unwrap_or_else(|| "?".to_string());
        match &n.children {
            NavChildren::Nodes(k) => parts.push(format!("{id}({})", shape(k))),
            NavChildren::Absent => parts.push(id),
            NavChildren::Other(_) => parts.push(format!("{id}!")),
        }
    }
    parts.join(",")
}

fn sample() -> Vec<NavNode> {
    vec![leaf("a"), with_kids("b", vec![leaf("c"), with_kids("d", vec![leaf("e")])]), leaf("f")]
}

#[test]
fn positions_read_as_the_original_does() {
    assert_eq!(nav_position("above"), NavPosition::Above);
    assert_eq!(nav_position("inner"), NavPosition::Inner);
    assert_eq!(nav_position("below"), NavPosition::Below);
    assert_eq!(nav_position("sideways"), NavPosition::Below);
}

#[test]
fn a_page_is_placed_above_below_or_inside_its_anchor() {
    let mut nav = sample();
    assert_eq!(insert_nav_node(&mut nav, leaf("x"), "c", NavPosition::Above), NavPlaceResult::Placed);
    assert_eq!(shape(&nav), "a,b(x,c,d(e)),f");
    assert_eq!(insert_nav_node(&mut nav, leaf("y"), "e", NavPosition::Below), NavPlaceResult::Placed);
    assert_eq!(shape(&nav), "a,b(x,c,d(e,y)),f");
    assert_eq!(insert_nav_node(&mut nav, leaf("z"), "f", NavPosition::Inner), NavPlaceResult::Placed);
    assert_eq!(shape(&nav), "a,b(x,c,d(e,y)),f(z)");
    assert_eq!(insert_nav_node(&mut nav, leaf("w"), "b", NavPosition::Inner), NavPlaceResult::Placed);
    assert_eq!(shape(&nav), "a,b(x,c,d(e,y),w),f(z)");
}

#[test]
fn a_missing_anchor_leaves_the_tree_alone() {
    let mut nav = sample();
    assert_eq!(insert_nav_node(&mut nav, leaf("x"), "nope", NavPosition::Below), NavPlaceResult::Missing);
    assert_eq!(shape(&nav), "a,b(c,d(e)),f");
}

#[test]
fn children_that_are_not_a_list_are_reported() {
    let mut odd = leaf("g");
    odd.children = NavChildren::Other("\"text\"".to_string());
    let mut nav = vec![leaf("a"), odd];
    assert_eq!(insert_nav_node(&mut nav, leaf("x"), "g", NavPosition::Inner), NavPlaceResult::NotAList);
    assert_eq!(shape(&nav), "a,g!");
    assert_eq!(insert_nav_node(&mut nav, leaf("x"), "g", NavPosition::Below), NavPlaceResult::Placed);
    assert_eq!(shape(&nav), "a,g!,x");
}

#[test]
fn removal_takes_the_whole_subtree() {
    let mut nav = sample();
    let gone = remove_nav_node(&mut nav, "d").expect("present");
    assert_eq!(shape(&[gone]), "d(e)");
    assert_eq!(shape(&nav), "a,b(c),f");
    assert!(remove_nav_node(&mut nav, "e").is_none());
    assert_eq!(shape(&nav), "a,b(c),f");
}

#[test]
fn new_pages_go_to_the_end_or_next_to_their_anchor() {
    let mut nav = sample();
    assert_eq!(add_nav_page(&mut nav, "p", None, None), Ok(NavEdit::Done));
    assert_eq!(add_nav_page(&mut nav, "q", Some(""), Some("")), Ok(NavEdit::Done));
    assert_eq!(shape(&nav), "a,b(c,d(e)),f,p,q");
    assert_eq!(add_nav_page(&mut nav, "r", Some("c"), None), Ok(NavEdit::Done));
    assert_eq!(shape(&nav), "a,b(c,r,d(e)),f,p,q");
    assert_eq!(
        add_nav_page(&mut nav, "s", Some("zz"), Some("inner")),
        Err(AppError::NotFound("Current page does not exist".to_string()))
    );
    assert_eq!(nav[3].fields, "{\"type\":\"page\"}");
}

#[test]
fn a_move_carries_the_subtree() {
    let mut nav = sample();
    assert_eq!(move_nav_page(&mut nav, "a", "d", "move_into"), Ok(NavEdit::Done));
    assert_eq!(shape(&nav), "a(d(e)),b(c),f");
    assert_eq!(move_nav_page(&mut nav, "f", "a", "move_above"), Ok(NavEdit::Done));
    assert_eq!(shape(&nav), "b(c),a(d(e)),f");
    assert_eq!(
        move_nav_page(&mut nav, "f", "nope", "move_below"),
        Err(AppError::NotFound("Page not found".to_string()))
    );
    assert_eq!(
        move_nav_page(&mut nav, "f", "a", "move_sideways"),
        Err(AppError::BadRequest("Invalid move_position value".to_string()))
    );
    // A page cannot be moved below itself: once taken out, it is no anchor.
    let mut nav = sample();
    assert_eq!(
        move_nav_page(&mut nav, "d", "d", "move_below"),
        Err(AppError::NotFound("Page not found".to_string()))
    );
}
