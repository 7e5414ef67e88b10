use mesh_shell::events::{component_input_size, handled_surface_size, take_frame_events, MAX_WINDOW_EVENTS_PER_FRAME};
use mesh_shell::shell::TargetRef;

#[test]
fn a_frame_takes_at_most_its_share_of_events_oldest_first() {
    let mut pending: Vec<usize> = (0..40).collect();
    let taken = take_frame_events(&mut pending);
    assert_eq!(taken, (0..MAX_WINDOW_EVENTS_PER_FRAME).collect::<Vec<_>>());
    assert_eq!(pending, (32..40).collect::<Vec<_>>());
    let rest = take_frame_events(&mut pending);
    assert_eq!(rest, (32..40).collect::<Vec<_>>());
    assert!(pending.is_empty());
    assert!(take_frame_events(&mut pending).is_empty());
}

#[test]
fn surfaces_are_handled_at_the_first_size_known() {
    assert_eq!(handled_surface_size((300, 40), Some((10, 10)), None, None), (300, 40));
    assert_eq!(handled_surface_size((300, 0), Some((10, 10)), Some((5, 5)), None), (10, 10));
    assert_eq!(handled_surface_size((0, 0), None, Some((0, 7)), Some((9, 9))), (1, 7));
    assert_eq!(handled_surface_size((0, 0), None, None, Some((9, 9))), (9, 9));
    assert_eq!(handled_surface_size((0, 0), None, None, None), (1, 1));
}

#[test]
fn components_take_input_at_their_content_or_parent_size() {
    assert_eq!(component_input_size(TargetRef::Parent, Some((200, 30)), None, None, (300, 40)), (200, 30));
    assert_eq!(component_input_size(TargetRef::Parent, None, None, None, (300, 40)), (300, 40));
    assert_eq!(component_input_size(TargetRef::Child(0), None, Some((500, 50)), Some((1, 1)), (80, 80)), (500, 50));
    assert_eq!(component_input_size(TargetRef::Child(0), None, None, Some((0, 50)), (80, 80)), (1, 50));
    assert_eq!(component_input_size(TargetRef::Child(0), None, None, None, (80, 80)), (80, 80));
}
