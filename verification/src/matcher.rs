//! The matcher: where in a preprocessed bitmap a template matches best, and
//! whether that match is confident enough to act on.
//!
//! The template is slid over the bitmap and every position at which it fits
//! gets a normalised cross-correlation score. The best position is the one
//! with the highest score, the first in reading order among equals. It is a
//! match if its score is at least the threshold.

use crate::assets::AssetTemplate;
use crate::bitmap::{GrayBitmap, RgbBitmap, MAX_PIXELS};
use crate::score::{min_score, Score, MIN_SCORE_BITS};
use crate::ui::{UIMask, UIPoint, UISurface};
use vstd::prelude::*;

verus! {

/// Why no matching took place.
#[derive(Debug, Clone, Copy, PartialEq, Eq, Structural)]
pub enum MatchError {
    /// The mask reaches beyond the screen.
    MaskOutOfRange,
    /// The template is wider or higher than the bitmap it is searched in.
    TemplateTooLarge,
}

impl MatchError {
    /// What went wrong, in words.
    pub fn message(&self) -> (m: &'static str)
        ensures
            m@ == match self {
                MatchError::MaskOutOfRange => "mask out of range"@,
                MatchError::TemplateTooLarge => "template larger than search region"@,
            },
    {
        match self {
            MatchError::MaskOutOfRange => "mask out of range",
            MatchError::TemplateTooLarge => "template larger than search region",
        }
    }
}

/// The best position of a template in a bitmap, relative to the bitmap that
/// was searched, with its score.
#[derive(Debug, Clone, Copy, PartialEq, Eq, Structural)]
pub struct Peak {
    pub x: u32,
    pub y: u32,
    pub score: Score,
}

/// What the matcher found.
#[derive(Debug, Clone, Copy, PartialEq, Eq, Structural)]
pub enum MatchResult {
    NoMatch,
    /// A confident match at `(x, y)`, relative to the bitmap that was
    /// searched.
    Match { x: u32, y: u32, score: Score },
}

/// The bits of the scores that `imageproc::template_matching::match_template`
/// gives with the method `CrossCorrelationNormalized`, row by row, for the
/// grayscale samples of an image and of a template.
pub uninterp spec fn correlation_of(
    input: Seq<u8>,
    input_width: u32,
    input_height: u32,
    template: Seq<u8>,
    template_width: u32,
    template_height: u32,
) -> Seq<u32>;

/// Calls `imageproc::template_matching::match_template` with the method
/// `CrossCorrelationNormalized` and hands out the bits of each score.
/// Trusted: the scores are that function's, one for each position at which
/// the template lies within the image, and none is a NaN: a score is a sum of
/// products of samples, divided, unless the divisor is zero, by the root of a
/// product of two sums of squared samples, and with no more samples than a
/// bitmap holds all of these are finite and none is negative. The template
/// must fit and must not be empty, or the function panics.
#[verifier::external_body]
fn match_template(
    input: &Vec<u8>,
    input_width: u32,
    input_height: u32,
    template: &Vec<u8>,
    template_width: u32,
    template_height: u32,
) -> (scores: Vec<u32>)
    requires
        input@.len() == input_width * input_height,
        template@.len() == template_width * template_height,
        input_width * input_height <= MAX_PIXELS,
        1 <= template_width <= input_width,
        1 <= template_height <= input_height,
    ensures
        scores@ == correlation_of(
            input@,
            input_width,
            input_height,
            template@,
            template_width,
            template_height,
        ),
        scores@.len() == (input_width - template_width + 1) * (input_height - template_height
            + 1),
        forall|i: int| 0 <= i < scores@.len() ==> !(#[trigger] score_at(scores@, i)).is_nan(),
{
    let image = image::GrayImage::from_raw(input_width, input_height, input.clone()).unwrap();
    let template =
        image::GrayImage::from_raw(template_width, template_height, template.clone()).unwrap();
    let scores = imageproc::template_matching::match_template(
        &image,
        &template,
        imageproc::template_matching::MatchTemplateMethod::CrossCorrelationNormalized,
    );
    scores.into_raw().into_iter().map(|score| score.to_bits()).collect()
}

/// The score at position `i`.
pub open spec fn score_at(scores: Seq<u32>, i: int) -> Score {
    Score { bits: scores[i] }
}

/// The score at position `i` can be the maximum of a scan: no score is
/// greater, and it is not a NaN past the start, which a scan never takes up.
pub open spec fn can_be_peak(scores: Seq<u32>, i: int) -> bool {
    &&& i == 0 || !score_at(scores, i).is_nan()
    &&& forall|j: int|
        0 <= j < scores.len() ==> !(#[trigger] score_at(scores, j)).greater_than(
            score_at(scores, i),
        )
}

/// Position `i` holds the maximum of the scores, and is the first to do so.
pub open spec fn is_peak(scores: Seq<u32>, i: int) -> bool {
    &&& 0 <= i < scores.len()
    &&& can_be_peak(scores, i)
    &&& forall|j: int| 0 <= j < i ==> !can_be_peak(scores, j)
}

/// The position of the maximum of the scores.
pub open spec fn peak_index(scores: Seq<u32>) -> int {
    choose|i: int| is_peak(scores, i)
}

/// There is one peak only.
pub proof fn lemma_peak_unique(scores: Seq<u32>, i: int, k: int)
    requires
        is_peak(scores, i),
        is_peak(scores, k),
    ensures
        i == k,
        peak_index(scores) == i,
{
    let c = peak_index(scores);
    assert(is_peak(scores, c));
    if i < k {
        assert(can_be_peak(scores, i));
    }
    if k < i {
        assert(can_be_peak(scores, k));
    }
    if i < c {
        assert(can_be_peak(scores, i));
    }
    if c < i {
        assert(can_be_peak(scores, c));
    }
}

/// Where every score is a number, the peak is the global maximum, and of
/// several positions that reach it the first: no score is above the peak,
/// and every score before it is below.
pub proof fn lemma_peak_is_first_maximum(scores: Seq<u32>, i: int, j: int)
    requires
        forall|k: int| 0 <= k < scores.len() ==> !(#[trigger] score_at(scores, k)).is_nan(),
        is_peak(scores, i),
        0 <= j < scores.len(),
    ensures
        score_at(scores, i).at_least(score_at(scores, j)),
        j < i ==> score_at(scores, i).greater_than(score_at(scores, j)),
{
    assert(!score_at(scores, j).greater_than(score_at(scores, i)));
    if j < i {
        assert(!can_be_peak(scores, j));
        let k = choose|k: int|
            0 <= k < scores.len() && (#[trigger] score_at(scores, k)).greater_than(
                score_at(scores, j),
            );
        assert(!score_at(scores, k).greater_than(score_at(scores, i)));
    }
}

/// Where every score is a number, the peak passes a threshold exactly when
/// some score does.
pub proof fn lemma_match_iff_some_score_passes(scores: Seq<u32>, i: int, threshold: Score)
    requires
        forall|k: int| 0 <= k < scores.len() ==> !(#[trigger] score_at(scores, k)).is_nan(),
        is_peak(scores, i),
    ensures
        score_at(scores, i).at_least(threshold) <==> some_score_passes(scores, threshold),
{
    if some_score_passes(scores, threshold) {
        let j = choose|j: int|
            0 <= j < scores.len() && (#[trigger] score_at(scores, j)).at_least(threshold);
        lemma_peak_is_first_maximum(scores, i, j);
    }
}

/// Finds the maximum of the scores, the first one among equals. A scan from
/// the start that moves on whenever it meets a greater score ends there; this
/// is also the maximum that `imageproc::template_matching::find_extremes`
/// reports for the same scores.
pub fn peak(scores: &Vec<u32>) -> (best: usize)
    requires
        scores.len() > 0,
    ensures
        is_peak(scores@, best as int),
        best as int == peak_index(scores@),
{
    let mut best: usize = 0;
    let mut i: usize = 1;
    while i < scores.len()
        invariant
            1 <= i <= scores.len(),
            best < i,
            best == 0 || !score_at(scores@, best as int).is_nan(),
            best != 0 ==> !score_at(scores@, 0).is_nan(),
            forall|j: int|
                0 <= j < i ==> !(#[trigger] score_at(scores@, j)).greater_than(
                    score_at(scores@, best as int),
                ),
            forall|j: int|
                0 <= j < best ==> score_at(scores@, best as int).greater_than(
                    #[trigger] score_at(scores@, j),
                ) || (j > 0 && score_at(scores@, j).is_nan()),
        decreases scores.len() - i,
    {
        let candidate = Score::from_bits(scores[i]);
        let held = Score::from_bits(scores[best]);
        if candidate.greater_than(held) {
            best = i;
        }
        i += 1;
    }
    proof {
        lemma_peak_unique(scores@, best as int, best as int);
    }
    best
}

/// The best position of the template in the bitmap and its score, where the
/// template fits.
pub open spec fn peak_of(
    input: Seq<u8>,
    input_width: u32,
    input_height: u32,
    template: Seq<u8>,
    template_width: u32,
    template_height: u32,
) -> Peak {
    let scores = correlation_of(
        input,
        input_width,
        input_height,
        template,
        template_width,
        template_height,
    );
    let columns = input_width - template_width + 1;
    let best = peak_index(scores);
    Peak { x: (best % columns) as u32, y: (best / columns) as u32, score: score_at(scores, best) }
}

impl Peak {
    /// A peak is a match if its score is at least the threshold.
    pub open spec fn spec_judge(&self, threshold: Score) -> MatchResult {
        if self.score.at_least(threshold) {
            MatchResult::Match { x: self.x, y: self.y, score: self.score }
        } else {
            MatchResult::NoMatch
        }
    }

    /// Decides whether the peak is a match: its score must be at least the
    /// threshold.
    #[verifier::when_used_as_spec(spec_judge)]
    pub fn judge(&self, threshold: Score) -> (m: MatchResult)
        ensures
            m == self.judge(threshold),
    {
        if self.score.at_least(threshold) {
            MatchResult::Match { x: self.x, y: self.y, score: self.score }
        } else {
            MatchResult::NoMatch
        }
    }

    /// A peak whose score equals the threshold is a match.
    pub proof fn lemma_threshold_is_a_match(&self, threshold: Score)
        requires
            self.score.same_number(threshold),
        ensures
            self.judge(threshold) == (MatchResult::Match {
                x: self.x,
                y: self.y,
                score: self.score,
            }),
    {
    }
}

/// Some score is at least the threshold.
pub open spec fn some_score_passes(scores: Seq<u32>, threshold: Score) -> bool {
    exists|i: int| 0 <= i < scores.len() && (#[trigger] score_at(scores, i)).at_least(threshold)
}

/// What holds of a search in which the template fits: there is one score for
/// each position at which the template lies within the bitmap, none of them
/// is a NaN, and the best position is one of these positions and holds the
/// peak of the scores.
pub open spec fn search_is_sound(
    input: Seq<u8>,
    input_width: u32,
    input_height: u32,
    template: Seq<u8>,
    template_width: u32,
    template_height: u32,
) -> bool {
    let scores = correlation_of(
        input,
        input_width,
        input_height,
        template,
        template_width,
        template_height,
    );
    let columns = input_width - template_width + 1;
    let best = peak_of(
        input,
        input_width,
        input_height,
        template,
        template_width,
        template_height,
    );
    &&& scores.len() == columns * (input_height - template_height + 1)
    &&& forall|i: int| 0 <= i < scores.len() ==> !(#[trigger] score_at(scores, i)).is_nan()
    &&& best.x + template_width <= input_width
    &&& best.y + template_height <= input_height
    &&& is_peak(scores, best.y * columns + best.x)
    &&& best.score == score_at(scores, best.y * columns + best.x)
}

/// What the matcher gives for a bitmap, a template and a threshold.
pub open spec fn match_outcome(
    input: Seq<u8>,
    input_width: u32,
    input_height: u32,
    template: Seq<u8>,
    template_width: u32,
    template_height: u32,
    threshold: Score,
) -> Result<MatchResult, MatchError> {
    if template_width > input_width || template_height > input_height {
        Err(MatchError::TemplateTooLarge)
    } else {
        Ok(
            peak_of(
                input,
                input_width,
                input_height,
                template,
                template_width,
                template_height,
            ).judge(threshold),
        )
    }
}

/// Where the best score equals the threshold, the matcher reports a match at
/// the best position: the threshold is inclusive.
pub proof fn lemma_match_at_threshold(
    input: Seq<u8>,
    input_width: u32,
    input_height: u32,
    template: Seq<u8>,
    template_width: u32,
    template_height: u32,
    threshold: Score,
)
    requires
        template_width <= input_width,
        template_height <= input_height,
        peak_of(
            input,
            input_width,
            input_height,
            template,
            template_width,
            template_height,
        ).score.same_number(threshold),
    ensures
        ({
            let best = peak_of(
                input,
                input_width,
                input_height,
                template,
                template_width,
                template_height,
            );
            match_outcome(
                input,
                input_width,
                input_height,
                template,
                template_width,
                template_height,
                threshold,
            ) == Ok::<_, MatchError>(MatchResult::Match { x: best.x, y: best.y, score: best.score })
        }),
{
}

/// The best position of the template in the bitmap, with its score and
/// within the range of positions at which the template fits. Fails if the
/// template is larger than the bitmap.
pub fn find_peak(input: &GrayBitmap, template: &GrayBitmap) -> (r: Result<Peak, MatchError>)
    requires
        input.wf(),
        template.wf(),
    ensures
        match r {
            Ok(p) => {
                &&& template.width() <= input.width()
                &&& template.height() <= input.height()
                &&& p == peak_of(
                    input@,
                    input.width(),
                    input.height(),
                    template@,
                    template.width(),
                    template.height(),
                )
                &&& p.x + template.width() <= input.width()
                &&& p.y + template.height() <= input.height()
                &&& is_peak(
                    correlation_of(
                        input@,
                        input.width(),
                        input.height(),
                        template@,
                        template.width(),
                        template.height(),
                    ),
                    p.y * (input.width() - template.width() + 1) + p.x,
                )
                &&& search_is_sound(
                    input@,
                    input.width(),
                    input.height(),
                    template@,
                    template.width(),
                    template.height(),
                )
            },
            Err(e) => e == MatchError::TemplateTooLarge && (template.width() > input.width()
                || template.height() > input.height()),
        },
{
    if template.width() > input.width() || template.height() > input.height() {
        return Err(MatchError::TemplateTooLarge);
    }
    let columns: u32 = input.width() - template.width() + 1;
    let rows: u32 = input.height() - template.height() + 1;
    proof {
        assert(columns * rows >= 1) by (nonlinear_arith)
            requires
                columns >= 1,
                rows >= 1,
        ;
        assert(columns * rows <= input.width() * input.height()) by (nonlinear_arith)
            requires
                0 <= columns <= input.width(),
                0 <= rows <= input.height(),
        ;
    }
    let scores = match_template(
        input.pixels(),
        input.width(),
        input.height(),
        template.pixels(),
        template.width(),
        template.height(),
    );
    let best = peak(&scores);
    proof {
        vstd::arithmetic::div_mod::lemma_multiply_divide_lt(
            best as int,
            columns as int,
            rows as int,
        );
        vstd::arithmetic::div_mod::lemma_mod_pos_bound(best as int, columns as int);
        vstd::arithmetic::div_mod::lemma_div_pos_is_pos(best as int, columns as int);
        vstd::arithmetic::div_mod::lemma_fundamental_div_mod(best as int, columns as int);
        assert((best as int / columns as int) * columns == columns * (best as int
            / columns as int)) by (nonlinear_arith);
    }
    let x = (best % columns as usize) as u32;
    let y = (best / columns as usize) as u32;
    Ok(Peak { x, y, score: Score::from_bits(scores[best]) })
}

/// The matcher: looks for the template in the bitmap and takes its best
/// position as a match if the score there is at least `threshold`. Fails,
/// rather than reporting no match, if the template is larger than the bitmap.
pub fn find_template(input: &GrayBitmap, template: &GrayBitmap, threshold: Score) -> (r: Result<
    MatchResult,
    MatchError,
>)
    requires
        input.wf(),
        template.wf(),
    ensures
        r == match_outcome(
            input@,
            input.width(),
            input.height(),
            template@,
            template.width(),
            template.height(),
            threshold,
        ),
        r matches Ok(MatchResult::Match { x, y, .. }) ==> x + template.width() <= input.width()
            && y + template.height() <= input.height(),
        r is Ok ==> search_is_sound(
            input@,
            input.width(),
            input.height(),
            template@,
            template.width(),
            template.height(),
        ),
        r matches Ok(found) ==> (found is Match <==> some_score_passes(
            correlation_of(
                input@,
                input.width(),
                input.height(),
                template@,
                template.width(),
                template.height(),
            ),
            threshold,
        )),
{
    match find_peak(input, template) {
        Ok(p) => {
            proof {
                lemma_match_iff_some_score_passes(
                    correlation_of(
                        input@,
                        input.width(),
                        input.height(),
                        template@,
                        template.width(),
                        template.height(),
                    ),
                    p.y * (input.width() - template.width() + 1) + p.x,
                    threshold,
                );
            }
            Ok(p.judge(threshold))
        },
        Err(e) => Err(e),
    }
}

/// The screen area that a match of a `width` by `height` template covers,
/// for a match found in what `mask` cuts out.
pub open spec fn spec_surface_of(mask: UIMask, width: u32, height: u32, found: MatchResult) -> Option<
    UISurface,
> {
    match found {
        MatchResult::NoMatch => None,
        MatchResult::Match { x, y, .. } => Some(
            UISurface {
                top_left: mask.to_point(x, y),
                bottom_right: mask.to_point((x + width) as u32, (y + height) as u32),
            },
        ),
    }
}

/// Maps a match found in what `mask` cuts out to the screen area that the
/// `width` by `height` template covers there; no match gives no area.
#[verifier::when_used_as_spec(spec_surface_of)]
pub fn surface_of(mask: UIMask, width: u32, height: u32, found: MatchResult) -> (r: Option<
    UISurface,
>)
    requires
        found matches MatchResult::Match { x, y, .. } ==> mask.x() + x + width <= u32::MAX
            && mask.y() + y + height <= u32::MAX,
    ensures
        r == surface_of(mask, width, height, found),
        r matches Some(s) ==> s.wf(),
{
    match found {
        MatchResult::NoMatch => None,
        MatchResult::Match { x, y, score: _ } => Some(
            UISurface::new(mask.to_point(x, y), mask.to_point(x + width, y + height)),
        ),
    }
}

/// What looking for a template in the masked part of a screen gives: the
/// screen area of a confident match, nothing if the best position is not
/// confident enough, or the reason why no matching took place.
pub open spec fn surface_outcome(
    screen: &RgbBitmap,
    template: &AssetTemplate,
    mask: UIMask,
    threshold: Score,
) -> Result<Option<UISurface>, MatchError> {
    if !mask.fits(screen.width(), screen.height()) {
        Err(MatchError::MaskOutOfRange)
    } else {
        match match_outcome(
            mask.applied(screen),
            mask.width(),
            mask.height(),
            template.image@,
            template.width,
            template.height,
            threshold,
        ) {
            Err(e) => Err(e),
            Ok(found) => Ok(surface_of(mask, template.width, template.height, found)),
        }
    }
}

/// The scores of the search for the template in what the mask cuts out of
/// the screen.
pub open spec fn scores_in_mask(screen: &RgbBitmap, template: &AssetTemplate, mask: UIMask) -> Seq<
    u32,
> {
    correlation_of(
        mask.applied(screen),
        mask.width(),
        mask.height(),
        template.image@,
        template.width,
        template.height,
    )
}

/// The best position of the template in what the mask cuts out of the
/// screen, relative to the mask.
pub open spec fn best_in_mask(screen: &RgbBitmap, template: &AssetTemplate, mask: UIMask) -> Peak {
    peak_of(
        mask.applied(screen),
        mask.width(),
        mask.height(),
        template.image@,
        template.width,
        template.height,
    )
}

/// [`search_is_sound`] of the search for the template in what the mask cuts
/// out of the screen.
pub open spec fn masked_search_is_sound(
    screen: &RgbBitmap,
    template: &AssetTemplate,
    mask: UIMask,
) -> bool {
    search_is_sound(
        mask.applied(screen),
        mask.width(),
        mask.height(),
        template.image@,
        template.width,
        template.height,
    )
}

/// The surface is the area that the template covers at the best position: it
/// starts at the mask's origin plus the best position, has the template's
/// size, lies within the mask, and the scores have their peak where it
/// starts.
pub open spec fn covers_best(
    s: UISurface,
    screen: &RgbBitmap,
    template: &AssetTemplate,
    mask: UIMask,
) -> bool {
    let best = best_in_mask(screen, template, mask);
    let columns = mask.width() - template.width + 1;
    &&& s.top_left.x == mask.x() + best.x
    &&& s.top_left.y == mask.y() + best.y
    &&& s.bottom_right.x == s.top_left.x + template.width
    &&& s.bottom_right.y == s.top_left.y + template.height
    &&& s.bottom_right.x <= mask.x() + mask.width()
    &&& s.bottom_right.y <= mask.y() + mask.height()
    &&& is_peak(
        scores_in_mask(screen, template, mask),
        (s.top_left.y - mask.y()) * columns + (s.top_left.x - mask.x()),
    )
}

/// Where the scores of a search have their peak at the position `(x, y)` and
/// the score there is at least the threshold, the match is reported there:
/// its area starts at the mask's origin plus `(x, y)` and has the template's
/// size. A copy of the template in the searched region is found where it
/// lies whenever it scores highest and no earlier position scores as high.
pub proof fn lemma_peak_gives_surface(
    screen: &RgbBitmap,
    template: &AssetTemplate,
    mask: UIMask,
    threshold: Score,
    x: u32,
    y: u32,
)
    requires
        mask.fits(screen.width(), screen.height()),
        x + template.width <= mask.width(),
        y + template.height <= mask.height(),
        is_peak(
            scores_in_mask(screen, template, mask),
            y * (mask.width() - template.width + 1) + x,
        ),
        score_at(
            scores_in_mask(screen, template, mask),
            y * (mask.width() - template.width + 1) + x,
        ).at_least(threshold),
    ensures
        surface_outcome(screen, template, mask, threshold) == Ok::<_, MatchError>(
            Some(
                UISurface {
                    top_left: UIPoint { x: (mask.x() + x) as u32, y: (mask.y() + y) as u32 },
                    bottom_right: UIPoint {
                        x: (mask.x() + x + template.width) as u32,
                        y: (mask.y() + y + template.height) as u32,
                    },
                },
            ),
        ),
{
    let scores = scores_in_mask(screen, template, mask);
    let columns = mask.width() - template.width + 1;
    let position = y * columns + x;
    lemma_peak_unique(scores, position, position);
    vstd::arithmetic::div_mod::lemma_fundamental_div_mod_converse(
        position,
        columns as int,
        y as int,
        x as int,
    );
}

/// Looks for the template in the masked part of the screen: cuts the mask
/// out, preprocesses the cut, runs the matcher on it with `threshold`, and
/// maps a match back to screen coordinates.
pub fn locate(screen: &RgbBitmap, template: &AssetTemplate, mask: UIMask, threshold: Score) -> (r:
    Result<Option<UISurface>, MatchError>)
    requires
        screen.wf(),
        template.wf(),
        mask.wf(),
    ensures
        r == surface_outcome(screen, template, mask, threshold),
        r is Ok ==> masked_search_is_sound(screen, template, mask),
        r matches Ok(found) ==> (found is Some <==> some_score_passes(
            scores_in_mask(screen, template, mask),
            threshold,
        )),
        r matches Ok(Some(s)) ==> s.wf() && covers_best(s, screen, template, mask),
{
    let input = match mask.apply(screen) {
        Ok(input) => input,
        Err(_) => {
            return Err(MatchError::MaskOutOfRange);
        },
    };
    match find_template(&input, &template.image, threshold) {
        Ok(found) => Ok(surface_of(mask, template.width, template.height, found)),
        Err(e) => Err(e),
    }
}

/// Looks for the template in the masked part of the screen with the default
/// threshold of 0.75.
pub fn with_surface(screen: &RgbBitmap, template: &AssetTemplate, mask: UIMask) -> (r: Result<
    Option<UISurface>,
    MatchError,
>)
    requires
        screen.wf(),
        template.wf(),
        mask.wf(),
    ensures
        r == surface_outcome(screen, template, mask, Score { bits: MIN_SCORE_BITS }),
        r is Ok ==> masked_search_is_sound(screen, template, mask),
        r matches Ok(found) ==> (found is Some <==> some_score_passes(
            scores_in_mask(screen, template, mask),
            Score { bits: MIN_SCORE_BITS },
        )),
        r matches Ok(Some(s)) ==> s.wf() && covers_best(s, screen, template, mask),
{
    locate(screen, template, mask, min_score())
}

} // verus!
