//! The sequence-network solver and its greedy sequence decoder.

use vstd::prelude::*;
use vstd::string::*;
use crate::error::{CaptchaError, CaptchaResult};
use crate::models::PreprocessOptions;
use crate::raster::{ImageModel, RasterImage};
use crate::solvers::preprocessor::{can_preprocess, preprocessed, ImagePreprocessor};
use crate::solvers::{
    backend_failure, cap_confidence, capped, is_backend_failure, Inference, SolveResult,
};
use crate::text::push_char;

verus! {

/// The width of the image that the network reads.
pub const DEFAULT_INPUT_WIDTH: u32 = 200;

/// The height of the image that the network reads.
pub const DEFAULT_INPUT_HEIGHT: u32 = 50;

/// CNN-based captcha solver
pub struct CnnSolver {
    ready: bool,
    models_path: String,
    charset: Vec<char>,
    input_width: u32,
    input_height: u32,
}

impl CnnSolver {
    /// Character set for captcha recognition
    pub const DEFAULT_CHARSET: &'static str = "ABCDEFGHIJKLMNOPQRSTUVWXYZ0123456789";

    #[verifier::type_invariant]
    spec fn inv(&self) -> bool {
        self.charset@.no_duplicates()
    }

    /// Whether the solver has been initialized.
    pub closed spec fn ready(&self) -> bool {
        self.ready
    }

    /// Where the solver looks for its model.
    pub closed spec fn models_path(&self) -> Seq<char> {
        self.models_path@
    }

    /// The symbols that the solver can recognize, in the order of their
    /// classes. The blank class follows the last of them.
    pub closed spec fn charset(&self) -> Seq<char> {
        self.charset@
    }

    /// The width of the image that the network reads.
    pub closed spec fn input_width(&self) -> u32 {
        self.input_width
    }

    /// The height of the image that the network reads.
    pub closed spec fn input_height(&self) -> u32 {
        self.input_height
    }

    /// The options that the solver works with: the caller's, or its own
    /// defaults, which ask for grayscale, the blur and the network's input
    /// size and for no threshold.
    pub open spec fn effective_options(&self, options: Option<&PreprocessOptions>) -> PreprocessOptions {
        match options {
            Some(given) => *given,
            None => PreprocessOptions {
                grayscale: Some(true),
                threshold: None,
                denoise: Some(true),
                resize_width: Some(self.input_width()),
                resize_height: Some(self.input_height()),
            },
        }
    }

    /// Whether the image can be brought to the network's input size by way
    /// of the options.
    pub open spec fn can_prepare(&self, image: ImageModel, options: Option<&PreprocessOptions>) -> bool {
        let effective = self.effective_options(options);
        &&& can_preprocess(image, effective)
        &&& preprocessed(image, effective).resize_supported(
            self.input_width() as nat,
            self.input_height() as nat,
        )
    }

    /// The image that the inference backend is given: the preprocessed
    /// image, stretched to the network's input size and reduced to
    /// grayscale.
    pub open spec fn network_input(&self, image: ImageModel, options: Option<&PreprocessOptions>) -> ImageModel {
        preprocessed(image, self.effective_options(options)).resized(
            self.input_width() as nat,
            self.input_height() as nat,
        ).luma()
    }

    /// Whether `result` is what the solver makes of an inference: the text
    /// as given, or decoded from the scores; the confidence capped at
    /// certainty; the solver's own name.
    pub open spec fn is_reading_of(&self, inference: Inference, result: SolveResult) -> bool {
        &&& result.solver_name@ == "cnn"@
        &&& match inference {
            Inference::Text { text, confidence } => {
                &&& result.text@ == text@
                &&& result.confidence == capped(confidence)
            },
            Inference::Scores { scores, timesteps, confidence } => {
                &&& result.text@ == decoded(scores@, self.charset(), timesteps as nat)
                &&& result.confidence == capped(confidence)
            },
        }
    }

    /// Whether `res` is what the solver returns when the backend has come
    /// back with `outcome`: its failure as a backend failure, or the
    /// reading of its inference.
    pub open spec fn is_conclusion(
        &self,
        outcome: CaptchaResult<Inference>,
        res: CaptchaResult<SolveResult>,
    ) -> bool {
        match outcome {
            Err(failure) => res matches Err(reported) && is_backend_failure(failure, reported),
            Ok(inference) => res matches Ok(result) && self.is_reading_of(inference, result),
        }
    }

    /// Whether `res` is what `solve` returns for the image and the options
    /// with the given backend. A solver that is not ready fails with
    /// `ModelLoadError`. A ready one fails with `ImageTooLarge` when a
    /// requested size is not supported; otherwise it returns the conclusion
    /// from what the backend reported for the prepared image.
    pub open spec fn is_solution<F: Fn(&RasterImage) -> CaptchaResult<Inference>>(
        &self,
        image: ImageModel,
        options: Option<&PreprocessOptions>,
        infer: &F,
        res: CaptchaResult<SolveResult>,
    ) -> bool {
        if !self.ready() {
            res matches Err(CaptchaError::ModelLoadError(reason)) && reason@
                == "CNN solver not ready"@
        } else if !self.can_prepare(image, options) {
            res matches Err(CaptchaError::ImageTooLarge)
        } else {
            &&& exists|input: RasterImage, outcome: CaptchaResult<Inference>|
                input@ == self.network_input(image, options) && #[trigger] call_ensures(
                    infer,
                    (&input,),
                    outcome,
                ) && self.is_conclusion(outcome, res)
            &&& res matches Ok(result) ==> result.wf() && result.solver_name@ == "cnn"@
        }
    }

    /// Create a new CNN solver with the default symbols and input size,
    /// initialized and ready.
    pub fn new(models_path: &str) -> (res: CaptchaResult<CnnSolver>)
        ensures
            res matches Ok(solver) && solver.ready() && solver.models_path() == models_path@
                && solver.charset() == Self::DEFAULT_CHARSET@ && solver.input_width()
                == DEFAULT_INPUT_WIDTH && solver.input_height() == DEFAULT_INPUT_HEIGHT,
    {
        let mut charset: Vec<char> = Vec::new();
        for c in it: Self::DEFAULT_CHARSET.chars()
            invariant
                it.seq() == Self::DEFAULT_CHARSET@,
                charset@ == Self::DEFAULT_CHARSET@.take(it.index() as int),
        {
            proof {
                assert(Self::DEFAULT_CHARSET@.take(it.index() + 1) =~= Self::DEFAULT_CHARSET@.take(
                    it.index() as int,
                ).push(c));
            }
            charset.push(c);
        }
        proof {
            assert(Self::DEFAULT_CHARSET@.take(Self::DEFAULT_CHARSET@.len() as int)
                =~= Self::DEFAULT_CHARSET@);
            lemma_default_charset_distinct();
        }
        let mut solver = CnnSolver {
            ready: false,
            models_path: String::from_str(models_path),
            charset,
            input_width: DEFAULT_INPUT_WIDTH,
            input_height: DEFAULT_INPUT_HEIGHT,
        };
        solver.ready = true;
        Ok(solver)
    }

    /// A solver for the given symbols and input size that is not ready yet.
    /// Fails with `BadRequest` exactly when a symbol occurs twice.
    pub fn with_charset(
        models_path: &str,
        charset: Vec<char>,
        input_width: u32,
        input_height: u32,
    ) -> (res: CaptchaResult<CnnSolver>)
        ensures
            match res {
                Ok(solver) => {
                    &&& charset@.no_duplicates()
                    &&& !solver.ready()
                    &&& solver.models_path() == models_path@
                    &&& solver.charset() == charset@
                    &&& solver.input_width() == input_width
                    &&& solver.input_height() == input_height
                },
                Err(e) => e is BadRequest && !charset@.no_duplicates(),
            },
    {
        if !Self::all_distinct(&charset) {
            return Err(CaptchaError::BadRequest(String::from_str("a symbol occurs twice")));
        }
        Ok(
            CnnSolver {
                ready: false,
                models_path: String::from_str(models_path),
                charset,
                input_width,
                input_height,
            },
        )
    }

    /// Whether no symbol occurs twice.
    fn all_distinct(charset: &Vec<char>) -> (distinct: bool)
        ensures
            distinct == charset@.no_duplicates(),
    {
        let n = charset.len();
        let mut j: usize = 0;
        while j < n
            invariant
                j <= n,
                n == charset@.len(),
                forall|a: int, b: int| 0 <= a < b < j ==> charset@[a] != charset@[b],
            decreases n - j,
        {
            let mut i: usize = 0;
            while i < j
                invariant
                    i <= j,
                    j < n,
                    n == charset@.len(),
                    forall|a: int| 0 <= a < i ==> charset@[a] != charset@[j as int],
                decreases j - i,
            {
                if charset[i] == charset[j] {
                    return false;
                }
                i = i + 1;
            }
            j = j + 1;
        }
        true
    }

    /// Makes the solver ready. A solver that is ready stays ready.
    pub fn initialize(&mut self)
        ensures
            final(self).ready(),
            final(self).models_path() == old(self).models_path(),
            final(self).charset() == old(self).charset(),
            final(self).input_width() == old(self).input_width(),
            final(self).input_height() == old(self).input_height(),
    {
        proof {
            use_type_invariant(&*self);
        }
        self.ready = true;
    }

    /// Get solver name
    pub fn name(&self) -> (name: &'static str)
        ensures
            name@ == "cnn"@,
    {
        "cnn"
    }

    /// Check if solver is ready
    pub fn is_ready(&self) -> (ready: bool)
        ensures
            ready == self.ready(),
    {
        self.ready
    }

    /// The image for the inference backend: the input preprocessed with
    /// the caller's options, or with the solver's defaults, then stretched
    /// to the network's input size and reduced to grayscale. Fails with
    /// `ImageTooLarge` exactly when a requested size is not supported.
    pub fn prepare(&self, image: &RasterImage, options: Option<&PreprocessOptions>) -> (res:
        CaptchaResult<RasterImage>)
        ensures
            match res {
                Ok(input) => {
                    &&& self.can_prepare(image@, options)
                    &&& input@ == self.network_input(image@, options)
                    &&& input@.wf()
                },
                Err(e) => e is ImageTooLarge && !self.can_prepare(image@, options),
            },
    {
        let preprocess_opts = match options {
            Some(given) => *given,
            None => PreprocessOptions {
                grayscale: Some(true),
                threshold: None,  // the network needs the gradients
                denoise: Some(true),
                resize_width: Some(self.input_width),
                resize_height: Some(self.input_height),
            },
        };
        let processed = ImagePreprocessor::preprocess(image, &preprocess_opts)?;
        // Resize image to model input size
        let resized = processed.resize_exact(self.input_width, self.input_height)?;
        // Convert to grayscale
        Ok(resized.to_luma8())
    }

    /// Turns what the backend reports into the solver's result.
    pub fn conclude(&self, inference: Inference) -> (result: SolveResult)
        ensures
            self.is_reading_of(inference, result),
            result.wf(),
    {
        match inference {
            Inference::Text { text, confidence } => SolveResult {
                text,
                confidence: cap_confidence(confidence),
                solver_name: String::from_str(self.name()),
            },
            Inference::Scores { scores, timesteps, confidence } => SolveResult {
                text: self.decode_ctc_output(scores.as_slice(), timesteps),
                confidence: cap_confidence(confidence),
                solver_name: String::from_str(self.name()),
            },
        }
    }

    /// Decode CTC output to text
    pub fn decode_ctc_output(&self, output: &[i32], seq_len: usize) -> (text: String)
        ensures
            text@ == decoded(output@, self.charset(), seq_len as nat),
            text@.len() <= seq_len,
    {
        decode_scores(&self.charset, output, seq_len)
    }

    /// Solve a captcha image: prepare it, hand it to the inference backend
    /// and turn what comes back into the result. The backend's failure is
    /// returned as a `ModelLoadError` or a `ProcessingError`.
    pub fn solve<F: Fn(&RasterImage) -> CaptchaResult<Inference>>(
        &self,
        image: &RasterImage,
        options: Option<&PreprocessOptions>,
        infer: &F,
    ) -> (res: CaptchaResult<SolveResult>)
        requires
            accepts_every_image(infer),
        ensures
            self.is_solution(image@, options, infer, res),
    {
        if !self.is_ready() {
            return Err(CaptchaError::ModelLoadError(String::from_str("CNN solver not ready")));
        }
        let input = match self.prepare(image, options) {
            Ok(input) => input,
            Err(e) => {
                return Err(e);
            },
        };
        // Run inference
        let outcome = infer(&input);
        let ghost witnessed = outcome;
        let res = match outcome {
            Ok(inference) => Ok(self.conclude(inference)),
            Err(failure) => Err(backend_failure(failure)),
        };
        assert(call_ensures(infer, (&input,), witnessed) && self.is_conclusion(witnessed, res));
        res
    }
}

/// Whether a backend can be called on every well-formed image.
pub open spec fn accepts_every_image<F: Fn(&RasterImage) -> CaptchaResult<Inference>>(
    infer: &F,
) -> bool {
    forall|input: &RasterImage| input@.wf() ==> #[trigger] call_requires(infer, (input,))
}

/// No symbol occurs twice among the default symbols.
pub proof fn lemma_default_charset_distinct()
    ensures
        CnnSolver::DEFAULT_CHARSET@.no_duplicates(),
        CnnSolver::DEFAULT_CHARSET@.len() == 36,
{
    reveal_strlit("ABCDEFGHIJKLMNOPQRSTUVWXYZ0123456789");
    let s = CnnSolver::DEFAULT_CHARSET@;
    assert forall|i: int, j: int| 0 <= i < s.len() && 0 <= j < s.len() && i != j implies s[i]
        != s[j] by {
        assert(forall|k: int| 0 <= k < 26 ==> #[trigger] s[k] as int == 65 + k);
        assert(forall|k: int| 26 <= k < 36 ==> #[trigger] s[k] as int == 22 + k);
    }
}

/// The index of the first greatest score of a non-empty row.
pub open spec fn argmax_first(row: Seq<i32>) -> int
    decreases row.len(),
{
    if row.len() <= 1 {
        0
    } else {
        let best = argmax_first(row.drop_last());
        if row.last() > row[best] {
            row.len() - 1
        } else {
            best
        }
    }
}

/// `argmax_first` picks a position of the row whose score no other score
/// exceeds and no earlier score reaches.
pub proof fn lemma_argmax_first(row: Seq<i32>)
    requires
        row.len() > 0,
    ensures
        0 <= argmax_first(row) < row.len(),
        forall|j: int| 0 <= j < row.len() ==> #[trigger] row[j] <= row[argmax_first(row)],
        forall|j: int| 0 <= j < argmax_first(row) ==> #[trigger] row[j] < row[argmax_first(row)],
    decreases row.len(),
{
    if row.len() > 1 {
        lemma_argmax_first(row.drop_last());
        let best = argmax_first(row.drop_last());
        assert forall|j: int| 0 <= j < row.len() implies #[trigger] row[j] <= row[argmax_first(
            row,
        )] by {
            if j < row.len() - 1 {
                assert(row[j] == row.drop_last()[j]);
            }
        }
        assert forall|j: int| 0 <= j < argmax_first(row) implies #[trigger] row[j] < row[argmax_first(
            row,
        )] by {
            assert(row[j] == row.drop_last()[j]);
        }
    }
}

/// The scores of timestep `t` in a row-major matrix with `classes` scores
/// per timestep.
pub open spec fn timestep_scores(scores: Seq<i32>, classes: nat, t: int) -> Seq<i32> {
    scores.subrange(t * classes, (t + 1) * classes)
}

/// The class that timestep `t` selects: the first one with the greatest
/// score.
pub open spec fn selected_class(scores: Seq<i32>, classes: nat, t: int) -> int {
    argmax_first(timestep_scores(scores, classes, t))
}

/// How many timesteps are decoded: as many as declared, but no more than
/// the matrix holds in full.
pub open spec fn decodable_timesteps(length: nat, classes: nat, timesteps: nat) -> nat {
    if timesteps <= length / classes {
        timesteps
    } else {
        length / classes
    }
}

/// The text decoded from the first `t` timesteps. The blank class is the
/// one after the last symbol. A timestep emits its symbol when it selects
/// neither the blank nor the class that the timestep before it selected;
/// before the first timestep the blank counts as selected.
pub open spec fn decoded_prefix(scores: Seq<i32>, charset: Seq<char>, t: int) -> Seq<char>
    decreases t,
{
    if t <= 0 {
        Seq::empty()
    } else {
        let classes = charset.len() + 1;
        let blank = charset.len() as int;
        let earlier = decoded_prefix(scores, charset, t - 1);
        let current = selected_class(scores, classes, t - 1);
        let previous = if t == 1 {
            blank
        } else {
            selected_class(scores, classes, t - 2)
        };
        if current != blank && current != previous {
            earlier.push(charset[current])
        } else {
            earlier
        }
    }
}

/// The text that greedy decoding reads from a score matrix.
pub open spec fn decoded(scores: Seq<i32>, charset: Seq<char>, timesteps: nat) -> Seq<char> {
    decoded_prefix(
        scores,
        charset,
        decodable_timesteps(scores.len(), charset.len() + 1, timesteps) as int,
    )
}

/// Decoding emits at most one symbol per timestep.
pub proof fn lemma_decoded_prefix_length(scores: Seq<i32>, charset: Seq<char>, t: int)
    requires
        0 <= t,
    ensures
        decoded_prefix(scores, charset, t).len() <= t,
    decreases t,
{
    if t > 0 {
        lemma_decoded_prefix_length(scores, charset, t - 1);
    }
}

/// The decoded text is no longer than the declared number of timesteps.
pub proof fn lemma_decoded_length(scores: Seq<i32>, charset: Seq<char>, timesteps: nat)
    ensures
        decoded(scores, charset, timesteps).len() <= timesteps,
{
    let classes = charset.len() + 1;
    let t = decodable_timesteps(scores.len(), classes, timesteps);
    lemma_decoded_prefix_length(scores, charset, t as int);
}

/// Every symbol of a text decoded from complete timesteps is a symbol of
/// the alphabet.
pub proof fn lemma_decoded_prefix_symbols(scores: Seq<i32>, charset: Seq<char>, t: int)
    requires
        0 <= t <= scores.len() / (charset.len() + 1),
    ensures
        forall|k: int|
            0 <= k < decoded_prefix(scores, charset, t).len() ==> charset.contains(
                #[trigger] decoded_prefix(scores, charset, t)[k],
            ),
    decreases t,
{
    if t > 0 {
        lemma_decoded_prefix_symbols(scores, charset, t - 1);
        let classes = charset.len() + 1;
        let c = classes as int;
        let n = scores.len() as int;
        vstd::arithmetic::div_mod::lemma_fundamental_div_mod(n, c);
        vstd::arithmetic::div_mod::lemma_mod_pos_bound(n, c);
        assert(t * c <= (n / c) * c) by (nonlinear_arith)
            requires
                t <= n / c,
                c > 0,
        ;
        assert((n / c) * c == c * (n / c)) by (nonlinear_arith);
        assert(t * c == (t - 1) * c + c) by (nonlinear_arith);
        assert(0 <= (t - 1) * c) by (nonlinear_arith)
            requires
                t >= 1,
                c > 0,
        ;
        let row = timestep_scores(scores, classes, t - 1);
        assert(row.len() == classes);
        lemma_argmax_first(row);
        let earlier = decoded_prefix(scores, charset, t - 1);
        let current = selected_class(scores, classes, t - 1);
        assert forall|k: int| 0 <= k < decoded_prefix(scores, charset, t).len() implies charset.contains(
            #[trigger] decoded_prefix(scores, charset, t)[k],
        ) by {
            if k < earlier.len() {
                assert(decoded_prefix(scores, charset, t)[k] == earlier[k]);
            } else {
                assert(decoded_prefix(scores, charset, t)[k] == charset[current]);
            }
        }
    }
}

/// Every symbol of a decoded text is a symbol of the alphabet.
pub proof fn lemma_decoded_symbols(scores: Seq<i32>, charset: Seq<char>, timesteps: nat)
    ensures
        forall|k: int|
            0 <= k < decoded(scores, charset, timesteps).len() ==> charset.contains(
                #[trigger] decoded(scores, charset, timesteps)[k],
            ),
{
    lemma_decoded_prefix_symbols(
        scores,
        charset,
        decodable_timesteps(scores.len(), charset.len() + 1, timesteps) as int,
    );
}

/// The index of the first greatest score among the `classes` scores that
/// start at `start`.
fn first_maximum(scores: &[i32], start: usize, classes: usize) -> (best: usize)
    requires
        classes > 0,
        start + classes <= scores@.len(),
    ensures
        best == argmax_first(scores@.subrange(start as int, start + classes)),
        best < classes,
{
    let ghost row = scores@.subrange(start as int, start + classes);
    let length = scores.len();
    let mut best: usize = 0;
    let mut j: usize = 1;
    assert(row.take(1).len() == 1);
    while j < classes
        invariant
            1 <= j <= classes,
            start + classes <= scores@.len(),
            length == scores@.len(),
            row == scores@.subrange(start as int, start + classes),
            best < j,
            best == argmax_first(row.take(j as int)),
        decreases classes - j,
    {
        proof {
            assert(row.take(j + 1).drop_last() =~= row.take(j as int));
            assert(row.take(j + 1).last() == row[j as int]);
            assert(row.take(j + 1)[best as int] == row[best as int]);
        }
        if scores[start + j] > scores[start + best] {
            best = j;
        }
        j = j + 1;
    }
    assert(row.take(classes as int) =~= row);
    best
}

/// Decodes a row-major score matrix of `seq_len` timesteps over the symbols
/// of `charset` and a final blank class.
fn decode_scores(charset: &Vec<char>, output: &[i32], seq_len: usize) -> (text: String)
    ensures
        text@ == decoded(output@, charset@, seq_len as nat),
        text@.len() <= seq_len,
{
    let mut result = String::new();
    let length = output.len();
    proof {
        lemma_decoded_length(output@, charset@, seq_len as nat);
    }
    if charset.len() == usize::MAX {
        // More classes than any matrix has scores: no timestep is complete.
        proof {
            vstd::arithmetic::div_mod::lemma_basic_div(
                output@.len() as int,
                (charset@.len() + 1) as int,
            );
        }
        return result;
    }
    let blank = charset.len();
    let classes = blank + 1;
    let available = length / classes;
    let steps = if seq_len <= available { seq_len } else { available };
    let mut previous = blank;
    let mut t: usize = 0;
    while t < steps
        invariant
            t <= steps,
            length == output@.len(),
            steps <= output@.len() / (classes as nat),
            classes == charset@.len() + 1,
            blank == charset@.len(),
            previous == (if t == 0 {
                blank as int
            } else {
                selected_class(output@, classes as nat, t - 1)
            }),
            result@ == decoded_prefix(output@, charset@, t as int),
        decreases steps - t,
    {
        proof {
            let c = classes as int;
            let n = output@.len() as int;
            vstd::arithmetic::div_mod::lemma_fundamental_div_mod(n, c);
            assert((t + 1) * c <= (n / c) * c) by (nonlinear_arith)
                requires
                    t + 1 <= n / c,
                    c > 0,
            ;
            assert((n / c) * c == c * (n / c)) by (nonlinear_arith);
            vstd::arithmetic::div_mod::lemma_mod_pos_bound(n, c);
            assert((t + 1) * c == t * c + c) by (nonlinear_arith);
            assert(0 <= t * c) by (nonlinear_arith)
                requires
                    t >= 0,
                    c > 0,
            ;
            assert(t * c + c <= n);
        }
        let start = t * classes;
        let current = first_maximum(output, start, classes);
        // CTC decoding: skip blanks and repeated characters
        if current != blank && current != previous {
            push_char(&mut result, charset[current]);
        }
        previous = current;
        t = t + 1;
    }
    result
}

} // verus!
