use screen_match::assets::AssetTemplate;
use screen_match::bitmap::{GrayBitmap, RgbBitmap};
use screen_match::decision::{
    decide, first_match, plan, wait_after, Action, Candidate, Decision, Phase, Step,
    CLAIM_WAIT_SECS, IDLE_WAIT_SECS, RETRY_WAIT_SECS, TAP_PAUSE_MILLIS,
};
use screen_match::matcher::MatchError;
use screen_match::score::{min_score, Score};
use screen_match::ui::{UIMask, UIPoint, UISurface};

fn noise(width: u32, height: u32, seed: u32) -> RgbBitmap {
    let mut state = seed;
    let mut data = Vec::new();
    for _ in 0..(3 * width * height) {
        state = state.wrapping_mul(1664525).wrapping_add(1013904223);
        data.push((state >> 24) as u8);
    }
    RgbBitmap::new(width, height, data).unwrap()
}

fn cut(from: &GrayBitmap, x: u32, y: u32, width: u32, height: u32) -> GrayBitmap {
    let mut pixels = Vec::new();
    for v in 0..height {
        for u in 0..width {
            pixels.push(from.get(x + u, y + v));
        }
    }
    GrayBitmap::new(width, height, pixels).unwrap()
}

// A candidate that matches on `screen`, with the area of its match.
fn present(screen: &RgbBitmap, mask: UIMask, x: u32, y: u32, action: Action) -> (Candidate, UISurface) {
    let seen = mask.apply(screen).unwrap();
    let template = AssetTemplate::new(cut(&seen, x, y, 8, 6));
    let area = UISurface::new(mask.to_point(x, y), mask.to_point(x + 8, y + 6));
    (Candidate::new(template, mask, action), area)
}

// A candidate that matches nowhere.
fn absent(mask: UIMask, action: Action) -> Candidate {
    Candidate::new(AssetTemplate::new(GrayBitmap::new(8, 6, vec![0; 48]).unwrap()), mask, action)
}

// A candidate that cannot be tried: its mask leaves the screen.
fn broken(action: Action) -> Candidate {
    let template = AssetTemplate::new(GrayBitmap::new(8, 6, vec![255; 48]).unwrap());
    Candidate::new(template, UIMask::new(1000, 1000, 30, 20).unwrap(), action)
}

fn claim_mask() -> UIMask {
    UIMask::new(2, 3, 30, 20).unwrap()
}

fn retry_mask() -> UIMask {
    UIMask::new(20, 25, 35, 20).unwrap()
}

#[test]
fn the_phases_follow_each_other_in_a_cycle() {
    assert_eq!(Phase::Idle.next(), Phase::Capturing);
    assert_eq!(Phase::Capturing.next(), Phase::Matching);
    assert_eq!(Phase::Matching.next(), Phase::Acting);
    assert_eq!(Phase::Acting.next(), Phase::Waiting);
    assert_eq!(Phase::Waiting.next(), Phase::Idle);
    for p in [Phase::Idle, Phase::Capturing, Phase::Matching, Phase::Acting, Phase::Waiting] {
        assert_ne!(p.next(), p);
        assert_eq!(p.next().next().next().next().next(), p);
    }
}

#[test]
fn each_outcome_has_its_wait() {
    assert_eq!(wait_after(Some(Action::ClaimGems)), 630);
    assert_eq!(wait_after(Some(Action::RetryRun)), 30);
    assert_eq!(wait_after(None), 60);
    assert_eq!((CLAIM_WAIT_SECS, RETRY_WAIT_SECS, IDLE_WAIT_SECS), (630, 30, 60));
    assert_eq!(TAP_PAUSE_MILLIS, 500);
}

#[test]
fn the_wait_after_a_claim_is_longer_than_after_no_match() {
    assert!(wait_after(Some(Action::ClaimGems)) > wait_after(None));
    let screen = noise(60, 50, 41);
    let (claim, _) = present(&screen, claim_mask(), 4, 5, Action::ClaimGems);
    let claimed = decide(&screen, &vec![claim]).unwrap();
    let idle = decide(&screen, &vec![absent(claim_mask(), Action::ClaimGems)]).unwrap();
    assert_eq!(claimed.action, Some(Action::ClaimGems));
    assert_eq!(idle.action, None);
    assert!(claimed.wait_secs > idle.wait_secs);
    assert_eq!((claimed.wait_secs, idle.wait_secs), (630, 60));
}

#[test]
fn each_action_has_its_taps() {
    assert_eq!(Action::ClaimGems.tap_count(), 2);
    assert_eq!(Action::RetryRun.tap_count(), 1);
}

#[test]
fn a_new_candidate_asks_for_the_default_confidence() {
    let template = AssetTemplate::new(GrayBitmap::new(2, 1, vec![0, 255]).unwrap());
    let c = Candidate::new(template.clone(), claim_mask(), Action::RetryRun);
    assert_eq!(c.threshold, min_score());
    assert_eq!(c.threshold, Score::from_bits(0.75f32.to_bits()));
    assert_eq!(c.template, template);
    assert_eq!(c.mask, claim_mask());
    assert_eq!(c.action, Action::RetryRun);
}

#[test]
fn the_first_matching_candidate_decides_and_the_second_is_not_tried() {
    let screen = noise(60, 50, 42);
    let (claim, claim_area) = present(&screen, claim_mask(), 4, 5, Action::ClaimGems);
    let (retry, _) = present(&screen, retry_mask(), 7, 2, Action::RetryRun);
    assert_eq!(
        first_match(&screen, &vec![claim.clone(), retry.clone()]),
        Ok(Some((0, claim_area)))
    );
    let d = decide(&screen, &vec![claim.clone(), retry]).unwrap();
    assert_eq!(d.candidate, Some(0));
    assert_eq!(d.action, Some(Action::ClaimGems));
    assert_eq!(d.surface, Some(claim_area));
    // Trying the second candidate would fail; it is not tried.
    assert_eq!(
        first_match(&screen, &vec![claim.clone(), broken(Action::RetryRun)]),
        Ok(Some((0, claim_area)))
    );
    let d = decide(&screen, &vec![claim, broken(Action::RetryRun)]).unwrap();
    assert_eq!(d.action, Some(Action::ClaimGems));
    assert_eq!(d.surface, Some(claim_area));
}

#[test]
fn a_candidate_that_does_not_match_gives_way_to_the_next() {
    let screen = noise(60, 50, 43);
    let (retry, retry_area) = present(&screen, retry_mask(), 7, 2, Action::RetryRun);
    let candidates = vec![absent(claim_mask(), Action::ClaimGems), retry];
    assert_eq!(first_match(&screen, &candidates), Ok(Some((1, retry_area))));
    let d = decide(&screen, &candidates).unwrap();
    assert_eq!(d.candidate, Some(1));
    assert_eq!(d.action, Some(Action::RetryRun));
    assert_eq!(d.surface, Some(retry_area));
    assert_eq!(d.taps.len(), 1);
    assert_eq!(d.wait_secs, 30);
}

#[test]
fn a_claim_taps_twice_inside_the_matched_area() {
    let screen = noise(60, 50, 44);
    let (claim, area) = present(&screen, claim_mask(), 4, 5, Action::ClaimGems);
    assert_eq!(area, UISurface::new(UIPoint::new(6, 8), UIPoint::new(14, 14)));
    let candidates = vec![claim];
    let mut distinct = false;
    for _ in 0..50 {
        let d = decide(&screen, &candidates).unwrap();
        assert_eq!(d.action, Some(Action::ClaimGems));
        assert_eq!(d.surface, Some(area));
        assert_eq!(d.taps.len(), 2);
        for p in &d.taps {
            assert!(6 <= p.x && p.x <= 14);
            assert!(8 <= p.y && p.y <= 14);
        }
        distinct = distinct || d.taps[0] != d.taps[1];
        assert_eq!(d.pause_millis, 500);
        assert_eq!(d.wait_secs, 630);
    }
    assert!(distinct);
}

#[test]
fn no_match_means_no_taps_and_the_idle_wait() {
    let screen = noise(60, 50, 45);
    let candidates =
        vec![absent(claim_mask(), Action::ClaimGems), absent(retry_mask(), Action::RetryRun)];
    assert_eq!(first_match(&screen, &candidates), Ok(None));
    let expected = Decision {
        candidate: None,
        action: None,
        surface: None,
        taps: vec![],
        pause_millis: 500,
        wait_secs: 60,
    };
    assert_eq!(decide(&screen, &candidates), Ok(expected.clone()));
    assert_eq!(decide(&screen, &vec![]), Ok(expected));
    assert_eq!(first_match(&screen, &vec![]), Ok(None));
}

#[test]
fn a_candidate_that_cannot_be_tried_ends_the_cycle_with_its_error() {
    let screen = noise(60, 50, 46);
    let (retry, _) = present(&screen, retry_mask(), 7, 2, Action::RetryRun);
    let candidates = vec![broken(Action::ClaimGems), retry.clone()];
    assert_eq!(first_match(&screen, &candidates), Err(MatchError::MaskOutOfRange));
    assert_eq!(decide(&screen, &candidates), Err(MatchError::MaskOutOfRange));
    let large = AssetTemplate::new(GrayBitmap::new(31, 6, vec![255; 31 * 6]).unwrap());
    let candidates = vec![
        absent(retry_mask(), Action::RetryRun),
        Candidate::new(large, claim_mask(), Action::ClaimGems),
        retry,
    ];
    assert_eq!(decide(&screen, &candidates), Err(MatchError::TemplateTooLarge));
}

#[test]
fn a_candidate_with_a_threshold_out_of_reach_does_not_match() {
    let screen = noise(60, 50, 47);
    let (mut claim, area) = present(&screen, claim_mask(), 4, 5, Action::ClaimGems);
    assert_eq!(first_match(&screen, &vec![claim.clone()]), Ok(Some((0, area))));
    claim.threshold = Score::from_bits(1.5f32.to_bits());
    assert_eq!(first_match(&screen, &vec![claim]), Ok(None));
}

#[test]
fn plan_follows_the_result_of_the_scan() {
    let template = AssetTemplate::new(GrayBitmap::new(2, 1, vec![0, 255]).unwrap());
    let candidates = vec![
        Candidate::new(template.clone(), claim_mask(), Action::ClaimGems),
        Candidate::new(template, retry_mask(), Action::RetryRun),
    ];
    let spot = UISurface::new(UIPoint::new(7, 9), UIPoint::new(7, 9));
    let d = plan(&candidates, Some((0, spot)));
    assert_eq!(
        d,
        Decision {
            candidate: Some(0),
            action: Some(Action::ClaimGems),
            surface: Some(spot),
            taps: vec![UIPoint::new(7, 9), UIPoint::new(7, 9)],
            pause_millis: 500,
            wait_secs: 630,
        }
    );
    let d = plan(&candidates, Some((1, spot)));
    assert_eq!(
        d,
        Decision {
            candidate: Some(1),
            action: Some(Action::RetryRun),
            surface: Some(spot),
            taps: vec![UIPoint::new(7, 9)],
            pause_millis: 500,
            wait_secs: 30,
        }
    );
    let d = plan(&candidates, None);
    assert_eq!(
        d,
        Decision {
            candidate: None,
            action: None,
            surface: None,
            taps: vec![],
            pause_millis: 500,
            wait_secs: 60,
        }
    );
}

#[test]
fn the_steps_are_the_taps_with_pauses_between_and_the_wait_at_the_end() {
    let spot = UISurface::new(UIPoint::new(7, 9), UIPoint::new(7, 9));
    let (a, b, c) = (UIPoint::new(1, 2), UIPoint::new(3, 4), UIPoint::new(5, 6));
    let mut d = Decision {
        candidate: Some(0),
        action: Some(Action::ClaimGems),
        surface: Some(spot),
        taps: vec![a, b],
        pause_millis: 500,
        wait_secs: 630,
    };
    assert_eq!(
        d.steps(),
        vec![Step::Tap(a), Step::Pause { millis: 500 }, Step::Tap(b), Step::Wait { secs: 630 }]
    );
    d.taps = vec![a];
    assert_eq!(d.steps(), vec![Step::Tap(a), Step::Wait { secs: 630 }]);
    d.taps = vec![];
    assert_eq!(d.steps(), vec![Step::Wait { secs: 630 }]);
    d.taps = vec![a, b, c];
    d.pause_millis = 20;
    d.wait_secs = 1;
    assert_eq!(
        d.steps(),
        vec![
            Step::Tap(a),
            Step::Pause { millis: 20 },
            Step::Tap(b),
            Step::Pause { millis: 20 },
            Step::Tap(c),
            Step::Wait { secs: 1 },
        ]
    );
}

#[test]
fn a_cycle_without_a_match_only_waits() {
    let screen = noise(60, 50, 48);
    let d = decide(&screen, &vec![absent(claim_mask(), Action::ClaimGems)]).unwrap();
    assert_eq!(d.steps(), vec![Step::Wait { secs: 60 }]);
}

#[test]
fn a_restart_taps_once_and_waits_half_a_minute() {
    let screen = noise(60, 50, 49);
    let (retry, area) = present(&screen, retry_mask(), 7, 2, Action::RetryRun);
    let d = decide(&screen, &vec![retry]).unwrap();
    let steps = d.steps();
    assert_eq!(steps.len(), 2);
    match steps[0] {
        Step::Tap(p) => {
            assert!(area.top_left.x <= p.x && p.x <= area.bottom_right.x);
            assert!(area.top_left.y <= p.y && p.y <= area.bottom_right.y);
        }
        _ => panic!("the first step is not a tap"),
    }
    assert_eq!(steps[1], Step::Wait { secs: 30 });
}
