use crab_tracer::pixel::Rgb8;
use crab_tracer::render::{
    rows_top_down, RenderResult, RenderScheduler, SchedulerAction, SchedulerInput,
};
use crab_tracer::scene::RenderScene;

fn line(generation: u64, line_num: usize, width: usize) -> SchedulerInput {
    SchedulerInput::RowDone {
        generation,
        line_num,
        line_pixels: vec![Rgb8 { r: 1, g: 2, b: 3 }; width],
    }
}

#[test]
fn rows_are_started_from_the_top() {
    assert_eq!(rows_top_down(4), vec![3, 2, 1, 0]);
    assert!(rows_top_down(0).is_empty());
}

#[test]
fn first_request_resets_and_starts_without_cancelling() {
    let mut s = RenderScheduler::new();
    assert_eq!(s.generation(), 0);
    let actions = s.step(SchedulerInput::Render { image_width: 5, image_height: 3 });
    assert_eq!(actions.len(), 2);
    assert!(matches!(
        actions[0],
        SchedulerAction::Emit {
            result: RenderResult::Reset { generation: 1, image_width: 5, image_height: 3 }
        }
    ));
    match &actions[1] {
        SchedulerAction::Start { generation, image_width, image_height, rows } => {
            assert_eq!((*generation, *image_width, *image_height), (1, 5, 3));
            assert_eq!(*rows, vec![2, 1, 0]);
        }
        other => panic!("expected start, got {:?}", other),
    }
    assert_eq!(s.generation(), 1);
}

#[test]
fn second_request_cancels_the_first() {
    let mut s = RenderScheduler::new();
    s.step(SchedulerInput::Render { image_width: 5, image_height: 3 });
    let actions = s.step(SchedulerInput::Render { image_width: 2, image_height: 2 });
    assert_eq!(actions.len(), 3);
    assert!(matches!(
        actions[0],
        SchedulerAction::Emit {
            result: RenderResult::Reset { generation: 2, image_width: 2, image_height: 2 }
        }
    ));
    assert!(matches!(actions[1], SchedulerAction::Cancel { generation: 1 }));
    assert!(matches!(actions[2], SchedulerAction::Start { generation: 2, .. }));
}

#[test]
fn finished_rows_are_passed_on_once() {
    let mut s = RenderScheduler::new();
    s.step(SchedulerInput::Render { image_width: 4, image_height: 2 });
    let actions = s.step(line(1, 1, 4));
    assert_eq!(actions.len(), 1);
    match &actions[0] {
        SchedulerAction::Emit {
            result: RenderResult::ImageLine { generation, line_num, line_pixels },
        } => {
            assert_eq!((*generation, *line_num), (1, 1));
            assert_eq!(*line_pixels, vec![Rgb8 { r: 1, g: 2, b: 3 }; 4]);
        }
        other => panic!("expected a line, got {:?}", other),
    }
    assert!(s.step(line(1, 1, 4)).is_empty());
    assert!(s.step(line(1, 2, 4)).is_empty());
    assert!(s.step(line(1, 0, 3)).is_empty());
    assert!(s.step(line(0, 0, 4)).is_empty());
    assert_eq!(s.step(line(1, 0, 4)).len(), 1);
}

#[test]
fn rows_before_any_request_are_dropped() {
    let mut s = RenderScheduler::new();
    assert!(s.step(line(0, 0, 0)).is_empty());
    assert!(s.step(line(1, 0, 0)).is_empty());
}

#[test]
fn no_stale_rows_after_a_second_request() {
    let height = 120;
    let width = 3;
    let mut s = RenderScheduler::new();
    let mut seen = Vec::new();
    seen.extend(s.step(SchedulerInput::Render { image_width: width, image_height: height }));
    for row in 0..10 {
        seen.extend(s.step(line(1, row, width)));
    }
    seen.extend(s.step(SchedulerInput::Render { image_width: width, image_height: height }));
    for row in 0..height {
        seen.extend(s.step(line(1, row, width)));
        seen.extend(s.step(line(2, row, width)));
    }
    let mut current = 0;
    let mut lines_after_second_reset = 0;
    for action in &seen {
        match action {
            SchedulerAction::Emit { result: RenderResult::Reset { generation, .. } } => {
                current = *generation;
            }
            SchedulerAction::Emit { result: RenderResult::ImageLine { generation, .. } } => {
                assert_eq!(*generation, current);
                if current == 2 {
                    lines_after_second_reset += 1;
                }
            }
            _ => {}
        }
    }
    assert_eq!(current, 2);
    assert_eq!(lines_after_second_reset, height);
}

#[test]
fn default_scene_is_three_body() {
    assert_eq!(RenderScene::default(), RenderScene::ThreeBody);
}
