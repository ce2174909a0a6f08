use instanced_renderer::composer::{CanvasComposer, PassKind, RenderPass};

#[test]
fn released_drawables_are_skipped_and_compacted() {
    let mut composer = CanvasComposer::new();
    composer.add_batched_pass(1);
    composer.add_timeseries_pass(2);
    assert_eq!(composer.pass_count(), 2);

    // the first drawable's owner released it; only the second is drawn
    let drawn = composer.render(&vec![false, true]);
    assert_eq!(
        drawn,
        vec![RenderPass { kind: PassKind::TimeSeries, id: 2 }]
    );
    assert_eq!(composer.pass_count(), 1);

    // the dead pass is gone for good: the next frame sees one pass
    let drawn_again = composer.render(&vec![true]);
    assert_eq!(
        drawn_again,
        vec![RenderPass { kind: PassKind::TimeSeries, id: 2 }]
    );
    assert_eq!(composer.pass_count(), 1);
}

#[test]
fn passes_draw_in_registration_order() {
    let mut composer = CanvasComposer::new();
    composer.add_batched_pass(10);
    composer.add_timeseries_pass(11);
    composer.add_batched_pass(12);
    let drawn = composer.render(&vec![true, true, true]);
    assert_eq!(
        drawn,
        vec![
            RenderPass { kind: PassKind::Batched, id: 10 },
            RenderPass { kind: PassKind::TimeSeries, id: 11 },
            RenderPass { kind: PassKind::Batched, id: 12 },
        ]
    );
    assert_eq!(composer.pass_count(), 3);
}

#[test]
fn an_empty_composer_renders_nothing() {
    let mut composer = CanvasComposer::new();
    let drawn = composer.render(&vec![]);
    assert!(drawn.is_empty());
    assert_eq!(composer.pass_count(), 0);
}

#[test]
fn all_passes_released_leaves_an_empty_composer() {
    let mut composer = CanvasComposer::new();
    composer.add_batched_pass(1);
    composer.add_batched_pass(2);
    let drawn = composer.render(&vec![false, false]);
    assert!(drawn.is_empty());
    assert_eq!(composer.pass_count(), 0);
}
