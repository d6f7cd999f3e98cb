//! What is handed to Tesseract, and what its answer counts as.

use crate::config::OcrConfig;
use crate::frame::Frame;
use crate::number;
use crate::number::render_i32;
use crate::picture_calls;
use crate::picture_calls::{color_rgb, encode_png, gray_levels, gray_rgb};
use crate::text;
use crate::text::{clone_opt, trim};
use vstd::prelude::*;

verus! {

// ---------------------------------------------------------------------
// Contrast
// ---------------------------------------------------------------------

/// The darkest level, or 255 where there is none.
pub open spec fn darkest(levels: Seq<u8>) -> u8
    decreases levels.len(),
{
    if levels.len() == 0 {
        255
    } else {
        let rest = darkest(levels.drop_last());
        if levels.last() < rest {
            levels.last()
        } else {
            rest
        }
    }
}

/// The brightest level, or 0 where there is none.
pub open spec fn brightest(levels: Seq<u8>) -> u8
    decreases levels.len(),
{
    if levels.len() == 0 {
        0
    } else {
        let rest = brightest(levels.drop_last());
        if levels.last() > rest {
            levels.last()
        } else {
            rest
        }
    }
}

/// `part` as a fraction of `range`, on a scale from 0 to 255, rounded to the
/// nearest number, half way upward.
pub open spec fn scaled(part: int, range: int) -> int {
    (2 * 255 * part + range) / (2 * range)
}

/// The levels spread over the whole scale; unchanged if all are equal.
pub open spec fn stretched(levels: Seq<u8>) -> Seq<u8> {
    let low = darkest(levels);
    let high = brightest(levels);
    if high <= low {
        levels
    } else {
        levels.map_values(|v: u8| scaled(v - low, high - low) as u8)
    }
}

proof fn lemma_extremes(levels: Seq<u8>)
    ensures
        forall|i: int|
            0 <= i < levels.len() ==> darkest(levels) <= #[trigger] levels[i] <= brightest(levels),
    decreases levels.len(),
{
    if levels.len() > 0 {
        lemma_extremes(levels.drop_last());
        assert forall|i: int| 0 <= i < levels.len() implies darkest(levels) <= #[trigger] levels[i]
            <= brightest(levels) by {
            if i < levels.len() - 1 {
                assert(levels.drop_last()[i] == levels[i]);
            }
        }
    }
}

proof fn lemma_scaled(part: int, range: int)
    requires
        0 <= part <= range,
        0 < range,
    ensures
        0 <= scaled(part, range) <= 255,
{
    assert(0 <= (2 * 255 * part + range) / (2 * range) <= 255) by (nonlinear_arith)
        requires
            0 <= part <= range,
            0 < range,
    ;
}

fn scaled_level(part: u8, range: u8) -> (r: u8)
    requires
        part <= range,
        0 < range,
    ensures
        r == scaled(part as int, range as int),
{
    let numerator: u32 = 510 * part as u32 + range as u32;
    let level: u32 = numerator / (2 * range as u32);
    proof {
        lemma_scaled(part as int, range as int);
    }
    level as u8
}

/// Spreads gray levels over the whole scale.
pub fn imageproc_contrast(levels: &Vec<u8>) -> (r: Vec<u8>)
    ensures
        r@ == stretched(levels@),
{
    let mut low: u8 = 255;
    let mut high: u8 = 0;
    let mut i: usize = 0;
    assert(levels@.take(0) == Seq::<u8>::empty());
    while i < levels.len()
        invariant
            i <= levels@.len(),
            low == darkest(levels@.take(i as int)),
            high == brightest(levels@.take(i as int)),
        decreases levels@.len() - i,
    {
        proof {
            assert(levels@.take(i + 1).drop_last() == levels@.take(i as int));
            assert(levels@.take(i + 1).last() == levels@[i as int]);
        }
        let v: u8 = levels[i];
        if v < low {
            low = v;
        }
        if v > high {
            high = v;
        }
        i += 1;
    }
    assert(levels@.take(levels@.len() as int) == levels@);
    let flat = high <= low;
    let mut r: Vec<u8> = Vec::new();
    let mut k: usize = 0;
    while k < levels.len()
        invariant
            k <= levels@.len(),
            low == darkest(levels@),
            high == brightest(levels@),
            flat == (high <= low),
            r@ == stretched(levels@).take(k as int),
        decreases levels@.len() - k,
    {
        let v: u8 = levels[k];
        proof {
            lemma_extremes(levels@);
            assert(stretched(levels@).take(k + 1) == stretched(levels@).take(k as int).push(
                stretched(levels@)[k as int],
            ));
        }
        if flat {
            r.push(v);
        } else {
            r.push(scaled_level(v - low, high - low));
        }
        k += 1;
    }
    assert(stretched(levels@).take(levels@.len() as int) == stretched(levels@));
    r
}

/// Stretching keeps the order of levels and reaches both ends of the scale.
pub proof fn law_stretch(levels: Seq<u8>, i: int, j: int)
    requires
        darkest(levels) < brightest(levels),
        0 <= i < levels.len(),
        0 <= j < levels.len(),
        levels[i] <= levels[j],
    ensures
        stretched(levels)[i] <= stretched(levels)[j],
        levels[i] == darkest(levels) ==> stretched(levels)[i] == 0,
        levels[j] == brightest(levels) ==> stretched(levels)[j] == 255,
{
    lemma_extremes(levels);
    let low = darkest(levels);
    let range = brightest(levels) - low;
    let a = levels[i] - low;
    let b = levels[j] - low;
    lemma_scaled(a, range);
    lemma_scaled(b, range);
    assert((2 * 255 * a + range) / (2 * range) <= (2 * 255 * b + range) / (2 * range))
        by (nonlinear_arith)
        requires
            0 <= a <= b,
            0 < range,
    ;
    assert((2 * 255 * 0 + range) / (2 * range) == 0) by (nonlinear_arith)
        requires
            0 < range,
    ;
    assert((2 * 255 * range + range) / (2 * range) == 255) by (nonlinear_arith)
        requires
            0 < range,
    ;
}

// ---------------------------------------------------------------------
// The request
// ---------------------------------------------------------------------

/// What Tesseract is asked.
#[derive(Debug)]
pub struct OcrRequest {
    /// Where its data lies, if not where it looks by itself.
    pub tessdata_dir: Option<String>,
    pub languages: String,
    /// The page segmentation mode, as a Tesseract variable has it.
    pub page_segmentation: Option<String>,
    /// The picture, as a PNG file.
    pub png: Vec<u8>,
}

#[verifier::ext_equal]
pub struct OcrRequestView {
    pub tessdata_dir: Option<Seq<char>>,
    pub languages: Seq<char>,
    pub page_segmentation: Option<Seq<char>>,
    pub png: Seq<u8>,
}

impl View for OcrRequest {
    type V = OcrRequestView;

    open spec fn view(&self) -> OcrRequestView {
        OcrRequestView {
            tessdata_dir: text::opt_text(self.tessdata_dir),
            languages: self.languages@,
            page_segmentation: text::opt_text(self.page_segmentation),
            png: self.png@,
        }
    }
}

/// The brightness of each pixel of a picture.
pub open spec fn levels_of(pixels: Seq<u8>, count: nat) -> Seq<u8> {
    Seq::new(
        count,
        |i: int|
            picture_calls::brightness(pixels[4 * i], pixels[4 * i + 1], pixels[4 * i + 2]) as u8,
    )
}

/// The colors that Tesseract gets to see of a picture: gray with the
/// contrast stretched where that is wanted, else those of the picture.
pub open spec fn ocr_colors(frame: Frame, preprocess: bool) -> Seq<u8> {
    if preprocess {
        picture_calls::gray_as_rgb(
            stretched(levels_of(frame.pixels@, (frame.width * frame.height) as nat)),
        )
    } else {
        picture_calls::color_as_rgb(frame.pixels@)
    }
}

/// The PNG file that is made of a picture.
pub open spec fn ocr_png(frame: Frame, preprocess: bool) -> Result<Seq<u8>, Seq<char>> {
    picture_calls::png_file(frame.width, frame.height, ocr_colors(frame, preprocess))
}

/// What Tesseract is asked about a PNG file. A data directory that is
/// configured goes before the one that comes with the program.
pub open spec fn request_for(
    cfg: crate::config::OcrView,
    bundled: Option<Seq<char>>,
    png: Seq<u8>,
) -> OcrRequestView {
    OcrRequestView {
        tessdata_dir: if cfg.tessdata_dir is Some {
            cfg.tessdata_dir
        } else {
            bundled
        },
        languages: cfg.languages,
        page_segmentation: match cfg.psm {
            Some(n) => Some(number::signed_decimal(n as int)),
            None => None,
        },
        png,
    }
}

/// What Tesseract is asked about a PNG file. `bundled` is the data directory
/// that comes with the program, if there is one.
pub fn request_with_png(cfg: &OcrConfig, bundled: &Option<String>, png: Vec<u8>) -> (r: OcrRequest)
    ensures
        r@ == request_for(cfg@, text::opt_text(*bundled), png@),
{
    OcrRequest {
        tessdata_dir: match &cfg.tessdata_dir {
            Some(dir) => Some(dir.clone()),
            None => clone_opt(bundled),
        },
        languages: cfg.languages.clone(),
        page_segmentation: match cfg.psm {
            Some(n) => Some(render_i32(n)),
            None => None,
        },
        png,
    }
}

/// The colors of a picture as Tesseract gets to see them, three bytes to the
/// pixel.
pub fn prepare_colors(frame: &Frame, preprocess: bool) -> (r: Vec<u8>)
    requires
        frame.wf(),
    ensures
        r@ == ocr_colors(*frame, preprocess),
        r@.len() == 3 * frame.width * frame.height,
{
    let bytes: usize = frame.pixels.len();
    assert(3 * frame.width * frame.height == 3 * (bytes as int / 4) <= bytes && bytes as int / 4
        == frame.width * frame.height) by (nonlinear_arith)
        requires
            0 <= frame.width,
            0 <= frame.height,
            bytes == 4 * frame.width * frame.height,
    ;
    if preprocess {
        let levels = gray_levels(frame);
        proof {
            let want = levels_of(frame.pixels@, (frame.width * frame.height) as nat);
            assert(levels@.len() == want.len());
            assert forall|i: int| 0 <= i < want.len() implies levels@[i] == want[i] by {
                let level = levels@[i];
                assert(level == picture_calls::brightness(
                    frame.pixels@[4 * i],
                    frame.pixels@[4 * i + 1],
                    frame.pixels@[4 * i + 2],
                ));
            }
            assert(levels@ == want);
        }
        gray_rgb(frame.width, frame.height, imageproc_contrast(&levels))
    } else {
        color_rgb(frame)
    }
}

/// The picture as it goes to Tesseract.
pub fn prepare_picture(frame: &Frame, preprocess: bool) -> (r: Result<Vec<u8>, String>)
    requires
        frame.wf(),
    ensures
        picture_calls::encoded(r) == ocr_png(*frame, preprocess),
{
    encode_png(frame.width, frame.height, prepare_colors(frame, preprocess))
}

/// What Tesseract is asked about a picture, or why the picture could not be
/// encoded.
pub fn ocr_request(frame: &Frame, cfg: &OcrConfig, bundled: &Option<String>) -> (r: Result<
    OcrRequest,
    String,
>)
    requires
        frame.wf(),
    ensures
        (match r {
            Ok(q) => ocr_png(*frame, cfg.preprocess) matches Ok(png) && q@ == request_for(
                cfg@,
                text::opt_text(*bundled),
                png,
            ),
            Err(e) => ocr_png(*frame, cfg.preprocess) == Err::<Seq<u8>, Seq<char>>(e@),
        }),
{
    match prepare_picture(frame, cfg.preprocess) {
        Ok(png) => Ok(request_with_png(cfg, bundled, png)),
        Err(e) => Err(e),
    }
}

/// The recognized text: Tesseract's answer without the white space around
/// it.
pub fn recognized_text(answer: &str) -> (r: String)
    ensures
        r@ == text::trimmed(answer@),
{
    trim(answer)
}

// ---------------------------------------------------------------------
// What Tesseract gets to see
// ---------------------------------------------------------------------

proof fn lemma_extremes_reached(levels: Seq<u8>, low: u8, high: u8)
    requires
        forall|i: int| 0 <= i < levels.len() ==> low <= #[trigger] levels[i] <= high,
        levels.contains(low),
        levels.contains(high),
    ensures
        darkest(levels) == low,
        brightest(levels) == high,
{
    lemma_extremes(levels);
    lemma_extremes_are_levels(levels);
    let i = choose|i: int| 0 <= i < levels.len() && levels[i] == low;
    let j = choose|j: int| 0 <= j < levels.len() && levels[j] == high;
    assert(darkest(levels) <= levels[i]);
    assert(levels[j] <= brightest(levels));
}

proof fn lemma_extremes_are_levels(levels: Seq<u8>)
    requires
        levels.len() > 0,
    ensures
        exists|i: int| 0 <= i < levels.len() && #[trigger] levels[i] == darkest(levels),
        exists|i: int| 0 <= i < levels.len() && #[trigger] levels[i] == brightest(levels),
    decreases levels.len(),
{
    let n = levels.len() - 1;
    assert(levels[n] == levels.last());
    if levels.len() > 1 {
        let rest = levels.drop_last();
        lemma_extremes_are_levels(rest);
        let i = choose|i: int| 0 <= i < rest.len() && #[trigger] rest[i] == darkest(rest);
        let j = choose|j: int| 0 <= j < rest.len() && #[trigger] rest[j] == brightest(rest);
        assert(levels[i] == rest[i]);
        assert(levels[j] == rest[j]);
    } else {
        assert(levels.drop_last() == Seq::<u8>::empty());
        assert(darkest(Seq::<u8>::empty()) == 255);
        assert(brightest(Seq::<u8>::empty()) == 0);
    }
}

/// Contrast is stretched so that the darkest level becomes 0 and the
/// brightest 255, and each other keeps its share of the way between them,
/// rounded; levels that are all the same stay so.
pub proof fn law_contrast(levels: &Vec<u8>, r: Vec<u8>, low: u8, high: u8, i: int)
    requires
        call_ensures(imageproc_contrast, (levels,), r),
        forall|k: int| 0 <= k < levels@.len() ==> low <= #[trigger] levels@[k] <= high,
        levels@.contains(low),
        levels@.contains(high),
        0 <= i < levels@.len(),
    ensures
        r@.len() == levels@.len(),
        low < high ==> r@[i] == (510 * (levels@[i] - low) + (high - low)) / (2 * (high - low)),
        low < high && levels@[i] == low ==> r@[i] == 0,
        low < high && levels@[i] == high ==> r@[i] == 255,
        low == high ==> r@[i] == levels@[i],
{
    lemma_extremes_reached(levels@, low, high);
    if low < high {
        lemma_scaled(levels@[i] - low, high - low);
        law_stretch(levels@, i, i);
    }
}

/// Without preparation each pixel keeps its color and loses its alpha; with
/// it each pixel is as gray as its brightness says, after the contrast was
/// stretched over the whole picture.
pub proof fn law_colors(
    frame: &Frame,
    preprocess: bool,
    r: Vec<u8>,
    levels: &Vec<u8>,
    contrast: Vec<u8>,
    i: int,
    k: int,
)
    requires
        frame.wf(),
        call_ensures(prepare_colors, (frame, preprocess), r),
        levels@.len() == frame.width * frame.height,
        forall|j: int|
            0 <= j < levels@.len() ==> #[trigger] levels@[j] == (2126 * frame.pixels@[4 * j] + 7152
                * frame.pixels@[4 * j + 1] + 722 * frame.pixels@[4 * j + 2]) / 10000,
        call_ensures(imageproc_contrast, (levels,), contrast),
        0 <= i < frame.width * frame.height,
        0 <= k < 3,
    ensures
        r@.len() == 3 * (frame.width * frame.height),
        !preprocess ==> r@[3 * i + k] == frame.pixels@[4 * i + k],
        preprocess ==> r@[3 * i + k] == contrast@[i],
{
    let n = frame.width * frame.height;
    assert(4 * frame.width * frame.height == 4 * n && 3 * frame.width * frame.height == 3 * n)
        by (nonlinear_arith)
        requires
            n == frame.width * frame.height,
    ;
    if preprocess {
        let want = levels_of(frame.pixels@, n as nat);
        assert forall|j: int| 0 <= j < want.len() implies levels@[j] == want[j] by {
            let level = levels@[j];
            assert(level == picture_calls::brightness(
                frame.pixels@[4 * j],
                frame.pixels@[4 * j + 1],
                frame.pixels@[4 * j + 2],
            ));
        }
        assert(levels@ == want);
    }
}

/// The picture file that is made holds the prepared colors in the picture's
/// size.
pub proof fn law_picture_file(
    frame: &Frame,
    preprocess: bool,
    colors: Vec<u8>,
    r: Result<Vec<u8>, String>,
)
    requires
        frame.wf(),
        call_ensures(prepare_colors, (frame, preprocess), colors),
        call_ensures(prepare_picture, (frame, preprocess), r),
    ensures
        (match r {
            Ok(file) => picture_calls::png_file(frame.width, frame.height, colors@) == Ok::<
                Seq<u8>,
                Seq<char>,
            >(file@),
            Err(e) => picture_calls::png_file(frame.width, frame.height, colors@) == Err::<
                Seq<u8>,
                Seq<char>,
            >(e@),
        }),
{
}

/// What Tesseract is asked is what is configured; the configured data
/// directory goes before the one that comes with the program.
pub proof fn law_request(
    cfg: &OcrConfig,
    bundled: &Option<String>,
    png: Vec<u8>,
    r: OcrRequest,
    frame: &Frame,
    picture: Result<Vec<u8>, String>,
    whole: Result<OcrRequest, String>,
)
    requires
        call_ensures(request_with_png, (cfg, bundled, png), r),
        frame.wf(),
        call_ensures(prepare_picture, (frame, cfg.preprocess), picture),
        call_ensures(ocr_request, (frame, cfg, bundled), whole),
    ensures
        r.languages@ == cfg.languages@,
        r.png@ == png@,
        cfg.tessdata_dir is Some ==> text::opt_text(r.tessdata_dir) == text::opt_text(
            cfg.tessdata_dir,
        ),
        cfg.tessdata_dir is None ==> text::opt_text(r.tessdata_dir) == text::opt_text(*bundled),
        cfg.psm is None ==> r.page_segmentation is None,
        cfg.psm matches Some(n) ==> text::opt_text(r.page_segmentation) == Some(
            number::signed_decimal(n as int),
        ),
        (match picture {
            Ok(file) => whole is Ok && (file@ == png@ ==> whole->Ok_0@ == r@),
            Err(e) => whole is Err && whole->Err_0@ == e@,
        }),
{
}

/// The recognized text is the answer without the white space around it.
pub proof fn law_recognized_text(answer: &str, r: String, trimmed: String)
    requires
        call_ensures(recognized_text, (answer,), r),
        call_ensures(trim, (answer,), trimmed),
    ensures
        r@ == trimmed@,
{
}

} // verus!
