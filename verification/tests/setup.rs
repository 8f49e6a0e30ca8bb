use ksx_backend::setup::steps;

#[test]
fn the_prompt_order_is_essentials_first() {
    let steps = steps();
    let essentials: Vec<&str> = steps
        .iter()
        .take_while(|s| s.essential)
        .map(|s| s.id)
        .collect();
    assert_eq!(
        essentials,
        vec!["up", "down", "left", "right", "south", "east", "west", "north", "start", "back"],
        "a run abandoned halfway must still leave a usable panel"
    );
    assert!(!steps[essentials.len()..].iter().any(|s| s.essential));
    let mut ids: Vec<&str> = steps.iter().map(|s| s.id).collect();
    ids.sort_unstable();
    ids.dedup();
    assert_eq!(ids.len(), steps.len());
}
