//! The solver variants and what they share.

pub mod cnn;
pub mod ocr;
pub mod preprocessor;

use vstd::prelude::*;
use vstd::string::*;
use crate::config::ModelsSettings;
use crate::error::{CaptchaError, CaptchaResult};
use crate::models::PreprocessOptions;
use crate::raster::{ImageModel, RasterImage};
use crate::solvers::cnn::{
    accepts_every_image, CnnSolver, DEFAULT_INPUT_HEIGHT, DEFAULT_INPUT_WIDTH,
};
use crate::solvers::ocr::{recognizes_every_image, OcrSolver};
use crate::text::str_eq;

verus! {

/// The confidence that stands for certainty. Confidences are counted in
/// millionths: a confidence `c` stands for the share `c / CONFIDENCE_ONE`.
pub const CONFIDENCE_ONE: u32 = 1_000_000;

/// Result from a solver
#[derive(Debug, Clone)]
pub struct SolveResult {
    pub text: String,
    pub confidence: u32,
    pub solver_name: String,
}

/// What an inference backend reports for one prepared image.
#[derive(Debug, Clone)]
pub enum Inference {
    /// A row-major matrix of class scores, one row per timestep, to be
    /// decoded, with the confidence in millionths.
    Scores { scores: Vec<i32>, timesteps: usize, confidence: u32 },
    /// The recognized text itself, with the confidence in millionths.
    Text { text: String, confidence: u32 },
}

impl SolveResult {
    /// Whether the confidence lies between nothing and certainty.
    pub open spec fn wf(self) -> bool {
        self.confidence <= CONFIDENCE_ONE
    }
}

/// Whether `reported` is how a failure of the backend is passed on: a
/// `ModelLoadError` or a `ProcessingError` as it is, any other error as a
/// `ProcessingError` with its description.
pub open spec fn is_backend_failure(failure: CaptchaError, reported: CaptchaError) -> bool {
    match failure {
        CaptchaError::ModelLoadError(_) => reported == failure,
        CaptchaError::ProcessingError(_) => reported == failure,
        _ => reported matches CaptchaError::ProcessingError(reason) && reason@
            == failure.description(),
    }
}

/// Passes a failure of the backend on as a `ModelLoadError` or a
/// `ProcessingError`.
pub fn backend_failure(failure: CaptchaError) -> (reported: CaptchaError)
    ensures
        is_backend_failure(failure, reported),
{
    match failure {
        CaptchaError::ModelLoadError(reason) => CaptchaError::ModelLoadError(reason),
        CaptchaError::ProcessingError(reason) => CaptchaError::ProcessingError(reason),
        other => CaptchaError::ProcessingError(other.to_string()),
    }
}

/// A confidence capped at certainty.
pub open spec fn capped(confidence: u32) -> u32 {
    if confidence <= CONFIDENCE_ONE {
        confidence
    } else {
        CONFIDENCE_ONE
    }
}

/// Caps a confidence at certainty.
pub fn cap_confidence(confidence: u32) -> (bounded: u32)
    ensures
        bounded == capped(confidence),
{
    if confidence <= CONFIDENCE_ONE {
        confidence
    } else {
        CONFIDENCE_ONE
    }
}

/// A captcha solver: one of the variants that the registry can hold.
pub enum CaptchaSolver {
    /// The text-line solver.
    Ocr(OcrSolver),
    /// The sequence-network solver.
    Cnn(CnnSolver),
}

impl CaptchaSolver {
    /// The name under which the solver is registered.
    pub open spec fn spec_name(&self) -> Seq<char> {
        match self {
            CaptchaSolver::Ocr(_) => "ocr"@,
            CaptchaSolver::Cnn(_) => "cnn"@,
        }
    }

    /// Whether the solver has been initialized.
    pub open spec fn ready(&self) -> bool {
        match self {
            CaptchaSolver::Ocr(solver) => solver.ready(),
            CaptchaSolver::Cnn(solver) => solver.ready(),
        }
    }

    /// Whether `res` is what the solver returns for the image and the
    /// options, with the given inference backend where it needs one.
    pub open spec fn is_solution<F: Fn(&RasterImage) -> CaptchaResult<Inference>>(
        &self,
        image: ImageModel,
        options: Option<&PreprocessOptions>,
        infer: &F,
        res: CaptchaResult<SolveResult>,
    ) -> bool {
        match self {
            CaptchaSolver::Ocr(solver) => solver.is_solution(image, options, res),
            CaptchaSolver::Cnn(solver) => solver.is_solution(image, options, infer, res),
        }
    }

    /// Whether `res` is what the solver returns for the image and the
    /// options with the given backends: the recognition backend for the
    /// text-line solver, the inference backend for the sequence-network
    /// solver.
    pub open spec fn is_solution_with<
        R: Fn(&RasterImage) -> CaptchaResult<(String, i32)>,
        F: Fn(&RasterImage) -> CaptchaResult<Inference>,
    >(
        &self,
        image: ImageModel,
        options: Option<&PreprocessOptions>,
        recognize: &R,
        infer: &F,
        res: CaptchaResult<SolveResult>,
    ) -> bool {
        match self {
            CaptchaSolver::Ocr(solver) => solver.is_solution_with(image, options, recognize, res),
            CaptchaSolver::Cnn(solver) => solver.is_solution(image, options, infer, res),
        }
    }

    /// Get solver name
    pub fn name(&self) -> (name: &'static str)
        ensures
            name@ == self.spec_name(),
    {
        match self {
            CaptchaSolver::Ocr(solver) => solver.name(),
            CaptchaSolver::Cnn(solver) => solver.name(),
        }
    }

    /// Check if solver is ready
    pub fn is_ready(&self) -> (ready: bool)
        ensures
            ready == self.ready(),
    {
        match self {
            CaptchaSolver::Ocr(solver) => solver.is_ready(),
            CaptchaSolver::Cnn(solver) => solver.is_ready(),
        }
    }

    /// Solve a captcha image. The inference backend is consulted by the
    /// sequence-network solver only.
    pub fn solve<F: Fn(&RasterImage) -> CaptchaResult<Inference>>(
        &self,
        image: &RasterImage,
        options: Option<&PreprocessOptions>,
        infer: &F,
    ) -> (res: CaptchaResult<SolveResult>)
        requires
            accepts_every_image(infer),
        ensures
            self.is_solution(image@, options, infer, res),
            !self.ready() ==> res matches Err(CaptchaError::ModelLoadError(_)),
            res matches Ok(result) ==> result.wf() && result.solver_name@ == self.spec_name(),
    {
        match self {
            CaptchaSolver::Ocr(solver) => solver.solve(image, options),
            CaptchaSolver::Cnn(solver) => solver.solve(image, options, infer),
        }
    }

    /// Solve a captcha image with a backend for each variant: the
    /// text-line solver hands the image to the recognition backend, the
    /// sequence-network solver to the inference backend.
    pub fn solve_with<
        R: Fn(&RasterImage) -> CaptchaResult<(String, i32)>,
        F: Fn(&RasterImage) -> CaptchaResult<Inference>,
    >(
        &self,
        image: &RasterImage,
        options: Option<&PreprocessOptions>,
        recognize: &R,
        infer: &F,
    ) -> (res: CaptchaResult<SolveResult>)
        requires
            recognizes_every_image(recognize),
            accepts_every_image(infer),
        ensures
            self.is_solution_with(image@, options, recognize, infer, res),
            !self.ready() ==> res matches Err(CaptchaError::ModelLoadError(_)),
            res matches Ok(result) ==> result.wf() && result.solver_name@ == self.spec_name(),
    {
        match self {
            CaptchaSolver::Ocr(solver) => solver.solve_with(image, options, recognize),
            CaptchaSolver::Cnn(solver) => solver.solve(image, options, infer),
        }
    }
}

/// Whether a solver is as its variant's constructor makes it for a models
/// path: ready, and with the default symbols and input size where it has
/// any.
pub open spec fn is_fresh(solver: CaptchaSolver, models_path: Seq<char>) -> bool {
    match solver {
        CaptchaSolver::Ocr(solver) => solver.ready() && solver.models_path() == models_path,
        CaptchaSolver::Cnn(solver) => {
            &&& solver.ready()
            &&& solver.models_path() == models_path
            &&& solver.charset() == CnnSolver::DEFAULT_CHARSET@
            &&& solver.input_width() == DEFAULT_INPUT_WIDTH
            &&& solver.input_height() == DEFAULT_INPUT_HEIGHT
        },
    }
}

/// Whether no two solvers share a name.
pub open spec fn names_distinct(solvers: Seq<CaptchaSolver>) -> bool {
    forall|i: int, j: int|
        0 <= i < j < solvers.len() ==> (#[trigger] solvers[i]).spec_name() != (
        #[trigger] solvers[j]).spec_name()
}

/// Whether a solver of that name is among the solvers.
pub open spec fn has_solver(solvers: Seq<CaptchaSolver>, name: Seq<char>) -> bool {
    exists|i: int| 0 <= i < solvers.len() && (#[trigger] solvers[i]).spec_name() == name
}

/// The solvers that a registry holds when it is built from these two, in
/// the order in which they are attempted.
pub open spec fn registered(ocr: Option<OcrSolver>, cnn: Option<CnnSolver>) -> Seq<CaptchaSolver> {
    (match ocr {
        Some(solver) => seq![CaptchaSolver::Ocr(solver)],
        None => Seq::empty(),
    }) + (match cnn {
        Some(solver) => seq![CaptchaSolver::Cnn(solver)],
        None => Seq::empty(),
    })
}

/// The position of the first result with the greatest confidence.
pub open spec fn best_index(results: Seq<SolveResult>) -> int
    decreases results.len(),
{
    if results.len() <= 1 {
        0
    } else {
        let best = best_index(results.drop_last());
        if results.last().confidence > results[best].confidence {
            results.len() - 1
        } else {
            best
        }
    }
}

/// `best_index` picks a result whose confidence no other exceeds and no
/// earlier one reaches.
pub proof fn lemma_best_index(results: Seq<SolveResult>)
    requires
        results.len() > 0,
    ensures
        0 <= best_index(results) < results.len(),
        forall|j: int|
            0 <= j < results.len() ==> (#[trigger] results[j]).confidence <= results[best_index(
                results,
            )].confidence,
        forall|j: int|
            0 <= j < best_index(results) ==> (#[trigger] results[j]).confidence
                < results[best_index(results)].confidence,
    decreases results.len(),
{
    if results.len() > 1 {
        lemma_best_index(results.drop_last());
        assert forall|j: int| 0 <= j < results.len() implies (#[trigger] results[j]).confidence
            <= results[best_index(results)].confidence by {
            if j < results.len() - 1 {
                assert(results[j] == results.drop_last()[j]);
            }
        }
        assert forall|j: int| 0 <= j < best_index(results) implies (
        #[trigger] results[j]).confidence < results[best_index(results)].confidence by {
            assert(results[j] == results.drop_last()[j]);
        }
    }
}

/// The greatest confidence among the results does not depend on their
/// order; where one result alone has it, that result is selected in any
/// order.
pub proof fn lemma_best_is_order_independent(first: Seq<SolveResult>, second: Seq<SolveResult>)
    requires
        first.len() > 0,
        first.to_multiset() == second.to_multiset(),
    ensures
        second.len() > 0,
        first[best_index(first)].confidence == second[best_index(second)].confidence,
        (forall|j: int|
            0 <= j < first.len() && j != best_index(first) ==> (#[trigger] first[j]).confidence
                < first[best_index(first)].confidence) ==> first[best_index(first)]
            == second[best_index(second)],
{
    first.to_multiset_ensures();
    second.to_multiset_ensures();
    assert(second.len() == first.len());
    lemma_best_index(first);
    lemma_best_index(second);
    let a = first[best_index(first)];
    let b = second[best_index(second)];
    assert(first.contains(a));
    assert(second.contains(b));
    assert(first.to_multiset().count(a) > 0);
    assert(second.to_multiset().count(b) > 0);
    assert(second.contains(a));
    assert(first.contains(b));
    let ia = choose|i: int| 0 <= i < second.len() && second[i] == a;
    let ib = choose|i: int| 0 <= i < first.len() && first[i] == b;
    assert(second[ia].confidence <= b.confidence);
    assert(first[ib].confidence <= a.confidence);
}

/// Whether `res` is what the ensemble makes of the results that came in:
/// the first one with the greatest confidence, or `ProcessingError` when
/// there is none.
pub open spec fn is_selection(results: Seq<SolveResult>, res: CaptchaResult<SolveResult>) -> bool {
    if results.len() == 0 {
        res matches Err(CaptchaError::ProcessingError(reason)) && reason@ == "All solvers failed"@
    } else {
        res matches Ok(best) && best == results[best_index(results)]
    }
}

/// The results that count in an ensemble: those of the solvers that are
/// ready and succeeded, in the order of the solvers.
pub open spec fn successes(
    solvers: Seq<CaptchaSolver>,
    outcomes: Seq<CaptchaResult<SolveResult>>,
) -> Seq<SolveResult>
    decreases solvers.len(),
{
    if solvers.len() == 0 || outcomes.len() != solvers.len() {
        Seq::empty()
    } else {
        let earlier = successes(solvers.drop_last(), outcomes.drop_last());
        match outcomes.last() {
            Ok(result) => if solvers.last().ready() {
                earlier.push(result)
            } else {
                earlier
            },
            Err(_) => earlier,
        }
    }
}

/// Manages multiple captcha solvers
pub struct SolverManager {
    solvers: Vec<CaptchaSolver>,
    default_solver: String,
    models_path: String,
}

impl SolverManager {
    #[verifier::type_invariant]
    spec fn inv(&self) -> bool {
        &&& names_distinct(self.solvers@)
        &&& has_solver(self.solvers@, self.default_solver@)
    }

    /// The solvers, in the order in which they were registered.
    pub closed spec fn solvers(&self) -> Seq<CaptchaSolver> {
        self.solvers@
    }

    /// The name of the solver that serves requests which name none.
    pub closed spec fn default_solver(&self) -> Seq<char> {
        self.default_solver@
    }

    /// Where the solvers look for their resources.
    pub closed spec fn models_path(&self) -> Seq<char> {
        self.models_path@
    }

    /// Whether the registry is well formed: no two solvers share a name and
    /// the default solver is registered.
    pub open spec fn wf(&self) -> bool {
        &&& names_distinct(self.solvers())
        &&& has_solver(self.solvers(), self.default_solver())
    }

    /// The name that a request resolves to.
    pub open spec fn requested_name(&self, model_name: Option<&str>) -> Seq<char> {
        match model_name {
            Some(name) => name@,
            None => self.default_solver(),
        }
    }

    /// Create a new solver manager with the variants that the settings
    /// enable, the text-line solver first. Fails with `ModelLoadError`
    /// exactly when they enable none.
    pub fn new(config: &ModelsSettings) -> (res: CaptchaResult<SolverManager>)
        ensures
            match res {
                Ok(manager) => {
                    &&& config.ocr_enabled || config.cnn_enabled
                    &&& manager.wf()
                    &&& manager.solvers().map_values(|s: CaptchaSolver| s.spec_name()) == (
                    if config.ocr_enabled {
                        seq!["ocr"@]
                    } else {
                        Seq::empty()
                    }) + (if config.cnn_enabled {
                        seq!["cnn"@]
                    } else {
                        Seq::empty()
                    })
                    &&& forall|i: int|
                        0 <= i < manager.solvers().len() ==> is_fresh(
                            #[trigger] manager.solvers()[i],
                            config.path@,
                        )
                    &&& manager.default_solver() == (if config.cnn_enabled {
                        "cnn"@
                    } else {
                        "ocr"@
                    })
                    &&& manager.models_path() == config.path@
                },
                Err(e) => {
                    &&& !config.ocr_enabled
                    &&& !config.cnn_enabled
                    &&& e matches CaptchaError::ModelLoadError(reason)
                    &&& reason@ == "No solvers available"@
                },
            },
    {
        // Initialize OCR solver if enabled
        let ocr = if config.ocr_enabled {
            match OcrSolver::new(config.path.as_str()) {
                Ok(solver) => Some(solver),
                Err(_) => None,
            }
        } else {
            None
        };
        // Initialize CNN solver if enabled
        let cnn = if config.cnn_enabled {
            match CnnSolver::new(config.path.as_str()) {
                Ok(solver) => Some(solver),
                Err(_) => None,
            }
        } else {
            None
        };
        let res = Self::from_solvers(ocr, cnn, config.path.as_str());
        proof {
            if res is Ok {
                let manager = res->Ok_0;
                assert(manager.solvers().map_values(|s: CaptchaSolver| s.spec_name()) =~= (
                if config.ocr_enabled {
                    seq!["ocr"@]
                } else {
                    Seq::empty()
                }) + (if config.cnn_enabled {
                    seq!["cnn"@]
                } else {
                    Seq::empty()
                }));
            }
        }
        res
    }

    /// Builds the registry from the solvers that could be constructed, the
    /// text-line solver first. The sequence-network solver becomes the
    /// default if it is there, else the text-line solver. Fails with
    /// `ModelLoadError` exactly when there is neither.
    pub fn from_solvers(ocr: Option<OcrSolver>, cnn: Option<CnnSolver>, models_path: &str) -> (res:
        CaptchaResult<SolverManager>)
        ensures
            match res {
                Ok(manager) => {
                    &&& ocr is Some || cnn is Some
                    &&& manager.wf()
                    &&& manager.solvers() == registered(ocr, cnn)
                    &&& manager.default_solver() == (if cnn is Some {
                        "cnn"@
                    } else {
                        "ocr"@
                    })
                    &&& manager.models_path() == models_path@
                },
                Err(e) => {
                    &&& ocr is None
                    &&& cnn is None
                    &&& e matches CaptchaError::ModelLoadError(reason)
                    &&& reason@ == "No solvers available"@
                },
            },
    {
        let default_solver = if cnn.is_some() {
            String::from_str("cnn")
        } else if ocr.is_some() {
            String::from_str("ocr")
        } else {
            return Err(CaptchaError::ModelLoadError(String::from_str("No solvers available")));
        };
        let mut solvers: Vec<CaptchaSolver> = Vec::new();
        if let Some(solver) = ocr {
            solvers.push(CaptchaSolver::Ocr(solver));
        }
        if let Some(solver) = cnn {
            solvers.push(CaptchaSolver::Cnn(solver));
        }
        proof {
            lemma_names_differ();
            assert(solvers@ =~= registered(ocr, cnn));
            if cnn is Some {
                assert(solvers@[solvers@.len() - 1].spec_name() == "cnn"@);
            } else {
                assert(solvers@[0].spec_name() == "ocr"@);
            }
        }
        Ok(SolverManager { solvers, default_solver, models_path: String::from_str(models_path) })
    }

    /// Get the number of loaded models
    pub fn model_count(&self) -> (count: usize)
        ensures
            count == self.solvers().len(),
            self.wf(),
    {
        proof {
            use_type_invariant(self);
        }
        self.solvers.len()
    }

    /// Get list of available solvers, in the order of their registration.
    pub fn available_solvers(&self) -> (names: Vec<String>)
        ensures
            names@.len() == self.solvers().len(),
            forall|i: int|
                0 <= i < names@.len() ==> (#[trigger] names@[i])@ == self.solvers()[i].spec_name(),
    {
        let mut names: Vec<String> = Vec::new();
        let mut i: usize = 0;
        while i < self.solvers.len()
            invariant
                i <= self.solvers@.len(),
                names@.len() == i,
                forall|k: int|
                    0 <= k < i ==> (#[trigger] names@[k])@ == self.solvers@[k].spec_name(),
            decreases self.solvers@.len() - i,
        {
            names.push(String::from_str(self.solvers[i].name()));
            i = i + 1;
        }
        names
    }

    /// Whether `res` is what `solve` returns for a request. A name that is
    /// not registered gives `ModelNotFound` with that name. A registered
    /// solver that is not ready gives `ModelLoadError`. Otherwise the
    /// result is the solver's own.
    pub open spec fn is_dispatch<F: Fn(&RasterImage) -> CaptchaResult<Inference>>(
        &self,
        image: ImageModel,
        name: Seq<char>,
        options: Option<&PreprocessOptions>,
        infer: &F,
        res: CaptchaResult<SolveResult>,
    ) -> bool {
        &&& !has_solver(self.solvers(), name) ==> (res matches Err(
            CaptchaError::ModelNotFound(missing),
        ) && missing@ == name)
        &&& forall|i: int|
            0 <= i < self.solvers().len() && (#[trigger] self.solvers()[i]).spec_name() == name
                ==> if self.solvers()[i].ready() {
                self.solvers()[i].is_solution(image, options, infer, res)
            } else {
                res matches Err(CaptchaError::ModelLoadError(reason)) && reason@ == "Solver "@
                    + name + " is not ready"@
            }
    }

    /// Solve a captcha using the specified or default solver
    pub fn solve<F: Fn(&RasterImage) -> CaptchaResult<Inference>>(
        &self,
        image: &RasterImage,
        model_name: Option<&str>,
        options: Option<&PreprocessOptions>,
        infer: &F,
    ) -> (res: CaptchaResult<SolveResult>)
        requires
            accepts_every_image(infer),
        ensures
            self.is_dispatch(image@, self.requested_name(model_name), options, infer, res),
            model_name is None ==> (res matches Err(e) ==> !(e is ModelNotFound)),
            res matches Ok(result) ==> result.wf() && result.solver_name@ == self.requested_name(
                model_name,
            ),
    {
        proof {
            use_type_invariant(self);
        }
        let solver_name: &str = match model_name {
            Some(name) => name,
            None => self.default_solver.as_str(),
        };
        let mut i: usize = 0;
        while i < self.solvers.len()
            invariant
                i <= self.solvers@.len(),
                solver_name@ == self.requested_name(model_name),
                accepts_every_image(infer),
                names_distinct(self.solvers@),
                forall|k: int| 0 <= k < i ==> (#[trigger] self.solvers@[k]).spec_name() != solver_name@,
            decreases self.solvers@.len() - i,
        {
            let solver = &self.solvers[i];
            if str_eq(solver.name(), solver_name) {
                if !solver.is_ready() {
                    let reason = String::from_str("Solver ").concat(solver_name).concat(
                        " is not ready",
                    );
                    return Err(CaptchaError::ModelLoadError(reason));
                }
                let res = solver.solve(image, options, infer);
                proof {
                    lemma_solver_failures(solver, image@, options, infer, res);
                }
                return res;
            }
            i = i + 1;
        }
        Err(CaptchaError::ModelNotFound(String::from_str(solver_name)))
    }

    /// Whether `res` is what `solve_ensemble` returns: there is an outcome
    /// for each solver, a solution of that solver where it is ready, such
    /// that `res` is the selection among the successes.
    pub open spec fn is_ensemble<F: Fn(&RasterImage) -> CaptchaResult<Inference>>(
        &self,
        image: ImageModel,
        options: Option<&PreprocessOptions>,
        infer: &F,
        res: CaptchaResult<SolveResult>,
    ) -> bool {
        exists|outcomes: Seq<CaptchaResult<SolveResult>>|
            {
                &&& outcomes.len() == self.solvers().len()
                &&& forall|k: int|
                    0 <= k < outcomes.len() && self.solvers()[k].ready() ==> self.solvers()[k].is_solution(
                        image,
                        options,
                        infer,
                        #[trigger] outcomes[k],
                    )
                &&& #[trigger] is_selection(successes(self.solvers(), outcomes), res)
            }
    }

    /// Solve using all available solvers and return the best result. Every
    /// ready solver is tried in the order of registration; one that fails
    /// is left out. Fails with `ProcessingError` when none gave a result.
    pub fn solve_ensemble<F: Fn(&RasterImage) -> CaptchaResult<Inference>>(
        &self,
        image: &RasterImage,
        options: Option<&PreprocessOptions>,
        infer: &F,
    ) -> (res: CaptchaResult<SolveResult>)
        requires
            accepts_every_image(infer),
        ensures
            self.is_ensemble(image@, options, infer, res),
            res matches Ok(result) ==> result.wf(),
            res matches Err(e) ==> e is ProcessingError,
    {
        let mut results: Vec<SolveResult> = Vec::new();
        let ghost mut outcomes: Seq<CaptchaResult<SolveResult>> = Seq::empty();
        let mut i: usize = 0;
        while i < self.solvers.len()
            invariant
                i <= self.solvers@.len(),
                accepts_every_image(infer),
                outcomes.len() == i,
                forall|k: int|
                    0 <= k < i && self.solvers@[k].ready() ==> self.solvers@[k].is_solution(
                        image@,
                        options,
                        infer,
                        #[trigger] outcomes[k],
                    ),
                results@ == successes(self.solvers@.take(i as int), outcomes),
                forall|k: int| 0 <= k < results@.len() ==> (#[trigger] results@[k]).wf(),
            decreases self.solvers@.len() - i,
        {
            let solver = &self.solvers[i];
            let ghost before = outcomes;
            proof {
                assert(self.solvers@.take(i + 1).drop_last() =~= self.solvers@.take(i as int));
                assert(self.solvers@.take(i + 1).last() == self.solvers@[i as int]);
            }
            if solver.is_ready() {
                let outcome = solver.solve(image, options, infer);
                proof {
                    outcomes = outcomes.push(outcome);
                    assert(outcomes.drop_last() =~= before);
                }
                match outcome {
                    Ok(result) => {
                        results.push(result);
                    },
                    Err(_) => {},
                }
            } else {
                proof {
                    outcomes = outcomes.push(Err(CaptchaError::Timeout));
                    assert(outcomes.drop_last() =~= before);
                }
            }
            i = i + 1;
        }
        assert(self.solvers@.take(self.solvers@.len() as int) =~= self.solvers@);
        proof {
            if results@.len() > 0 {
                lemma_best_index(results@);
            }
        }
        let res = Self::select_best(results);
        assert(is_selection(successes(self.solvers(), outcomes), res));
        res
    }

    /// Whether `res` is what `solve_with` returns for a request. A name
    /// that is not registered gives `ModelNotFound` with that name. A registered
    /// solver that is not ready gives `ModelLoadError`. Otherwise the
    /// result is the solver's own.
    pub open spec fn is_dispatch_with<
        R: Fn(&RasterImage) -> CaptchaResult<(String, i32)>,
        F: Fn(&RasterImage) -> CaptchaResult<Inference>,
    >(
        &self,
        image: ImageModel,
        name: Seq<char>,
        options: Option<&PreprocessOptions>,
        recognize: &R,
        infer: &F,
        res: CaptchaResult<SolveResult>,
    ) -> bool {
        &&& !has_solver(self.solvers(), name) ==> (res matches Err(
            CaptchaError::ModelNotFound(missing),
        ) && missing@ == name)
        &&& forall|i: int|
            0 <= i < self.solvers().len() && (#[trigger] self.solvers()[i]).spec_name() == name
                ==> if self.solvers()[i].ready() {
                self.solvers()[i].is_solution_with(image, options, recognize, infer, res)
            } else {
                res matches Err(CaptchaError::ModelLoadError(reason)) && reason@ == "Solver "@
                    + name + " is not ready"@
            }
    }

    /// Solve a captcha using the specified or default solver, with a
    /// backend for each variant.
    pub fn solve_with<
        R: Fn(&RasterImage) -> CaptchaResult<(String, i32)>,
        F: Fn(&RasterImage) -> CaptchaResult<Inference>,
    >(
        &self,
        image: &RasterImage,
        model_name: Option<&str>,
        options: Option<&PreprocessOptions>,
        recognize: &R,
        infer: &F,
    ) -> (res: CaptchaResult<SolveResult>)
        requires
            recognizes_every_image(recognize),
            accepts_every_image(infer),
        ensures
            self.is_dispatch_with(
                image@,
                self.requested_name(model_name),
                options,
                recognize,
                infer,
                res,
            ),
            model_name is None ==> (res matches Err(e) ==> !(e is ModelNotFound)),
            res matches Ok(result) ==> result.wf() && result.solver_name@ == self.requested_name(
                model_name,
            ),
    {
        proof {
            use_type_invariant(self);
        }
        let solver_name: &str = match model_name {
            Some(name) => name,
            None => self.default_solver.as_str(),
        };
        let mut i: usize = 0;
        while i < self.solvers.len()
            invariant
                i <= self.solvers@.len(),
                solver_name@ == self.requested_name(model_name),
                recognizes_every_image(recognize),
            accepts_every_image(infer),
                names_distinct(self.solvers@),
                forall|k: int| 0 <= k < i ==> (#[trigger] self.solvers@[k]).spec_name() != solver_name@,
            decreases self.solvers@.len() - i,
        {
            let solver = &self.solvers[i];
            if str_eq(solver.name(), solver_name) {
                if !solver.is_ready() {
                    let reason = String::from_str("Solver ").concat(solver_name).concat(
                        " is not ready",
                    );
                    return Err(CaptchaError::ModelLoadError(reason));
                }
                let res = solver.solve_with(image, options, recognize, infer);
                proof {
                    lemma_solver_failures_with(solver, image@, options, recognize, infer, res);
                }
                return res;
            }
            i = i + 1;
        }
        Err(CaptchaError::ModelNotFound(String::from_str(solver_name)))
    }

    /// Whether `res` is what `solve_ensemble_with` returns: there is an outcome
    /// for each solver, a solution of that solver where it is ready, such
    /// that `res` is the selection among the successes.
    pub open spec fn is_ensemble_with<
        R: Fn(&RasterImage) -> CaptchaResult<(String, i32)>,
        F: Fn(&RasterImage) -> CaptchaResult<Inference>,
    >(
        &self,
        image: ImageModel,
        options: Option<&PreprocessOptions>,
        recognize: &R,
        infer: &F,
        res: CaptchaResult<SolveResult>,
    ) -> bool {
        exists|outcomes: Seq<CaptchaResult<SolveResult>>|
            {
                &&& outcomes.len() == self.solvers().len()
                &&& forall|k: int|
                    0 <= k < outcomes.len() && self.solvers()[k].ready() ==> self.solvers()[k].is_solution_with(
                        image,
                        options,
                        recognize,
                        infer,
                        #[trigger] outcomes[k],
                    )
                &&& #[trigger] is_selection(successes(self.solvers(), outcomes), res)
            }
    }

    /// Solve using all available solvers, with a backend for each variant,
    /// and return the best result. Every
    /// ready solver is tried in the order of registration; one that fails
    /// is left out. Fails with `ProcessingError` when none gave a result.
    pub fn solve_ensemble_with<
        R: Fn(&RasterImage) -> CaptchaResult<(String, i32)>,
        F: Fn(&RasterImage) -> CaptchaResult<Inference>,
    >(
        &self,
        image: &RasterImage,
        options: Option<&PreprocessOptions>,
        recognize: &R,
        infer: &F,
    ) -> (res: CaptchaResult<SolveResult>)
        requires
            recognizes_every_image(recognize),
            accepts_every_image(infer),
        ensures
            self.is_ensemble_with(image@, options, recognize, infer, res),
            res matches Ok(result) ==> result.wf(),
            res matches Err(e) ==> e is ProcessingError,
    {
        let mut results: Vec<SolveResult> = Vec::new();
        let ghost mut outcomes: Seq<CaptchaResult<SolveResult>> = Seq::empty();
        let mut i: usize = 0;
        while i < self.solvers.len()
            invariant
                i <= self.solvers@.len(),
                recognizes_every_image(recognize),
            accepts_every_image(infer),
                outcomes.len() == i,
                forall|k: int|
                    0 <= k < i && self.solvers@[k].ready() ==> self.solvers@[k].is_solution_with(
                        image@,
                        options,
                        recognize,
                        infer,
                        #[trigger] outcomes[k],
                    ),
                results@ == successes(self.solvers@.take(i as int), outcomes),
                forall|k: int| 0 <= k < results@.len() ==> (#[trigger] results@[k]).wf(),
            decreases self.solvers@.len() - i,
        {
            let solver = &self.solvers[i];
            let ghost before = outcomes;
            proof {
                assert(self.solvers@.take(i + 1).drop_last() =~= self.solvers@.take(i as int));
                assert(self.solvers@.take(i + 1).last() == self.solvers@[i as int]);
            }
            if solver.is_ready() {
                let outcome = solver.solve_with(image, options, recognize, infer);
                proof {
                    outcomes = outcomes.push(outcome);
                    assert(outcomes.drop_last() =~= before);
                }
                match outcome {
                    Ok(result) => {
                        results.push(result);
                    },
                    Err(_) => {},
                }
            } else {
                proof {
                    outcomes = outcomes.push(Err(CaptchaError::Timeout));
                    assert(outcomes.drop_last() =~= before);
                }
            }
            i = i + 1;
        }
        assert(self.solvers@.take(self.solvers@.len() as int) =~= self.solvers@);
        proof {
            if results@.len() > 0 {
                lemma_best_index(results@);
            }
        }
        let res = Self::select_best(results);
        assert(is_selection(successes(self.solvers(), outcomes), res));
        res
    }

    /// Picks the result with the highest confidence, the earliest among
    /// equals. Fails with `ProcessingError` exactly when there is none.
    pub fn select_best(results: Vec<SolveResult>) -> (res: CaptchaResult<SolveResult>)
        ensures
            is_selection(results@, res),
    {
        let mut results = results;
        if results.len() == 0 {
            return Err(CaptchaError::ProcessingError(String::from_str("All solvers failed")));
        }
        let ghost all = results@;
        let mut best: usize = 0;
        let mut j: usize = 1;
        assert(results@.take(1).len() == 1);
        while j < results.len()
            invariant
                1 <= j <= results@.len(),
                best < j,
                best == best_index(results@.take(j as int)),
            decreases results@.len() - j,
        {
            proof {
                assert(results@.take(j + 1).drop_last() =~= results@.take(j as int));
                assert(results@.take(j + 1).last() == results@[j as int]);
                assert(results@.take(j + 1)[best as int] == results@[best as int]);
            }
            if results[j].confidence > results[best].confidence {
                best = j;
            }
            j = j + 1;
        }
        assert(results@.take(results@.len() as int) =~= results@);
        Ok(results.remove(best))
    }
}

/// The two solver names are different.
pub proof fn lemma_names_differ()
    ensures
        "ocr"@ != "cnn"@,
{
    reveal_strlit("ocr");
    reveal_strlit("cnn");
    assert("ocr"@[0] != "cnn"@[0]);
}

/// A solver that is ready fails with nothing but `ImageTooLarge`,
/// `ModelLoadError` or `ProcessingError`.
pub proof fn lemma_solver_failures<F: Fn(&RasterImage) -> CaptchaResult<Inference>>(
    solver: &CaptchaSolver,
    image: ImageModel,
    options: Option<&PreprocessOptions>,
    infer: &F,
    res: CaptchaResult<SolveResult>,
)
    requires
        solver.ready(),
        solver.is_solution(image, options, infer, res),
    ensures
        res matches Err(e) ==> e is ImageTooLarge || e is ModelLoadError || e is ProcessingError,
{
    match solver {
        CaptchaSolver::Ocr(ocr) => {
            assert(ocr.is_solution(image, options, res));
        },
        CaptchaSolver::Cnn(cnn) => {
            if cnn.can_prepare(image, options) {
                let (input, outcome) = choose|
                    input: RasterImage,
                    outcome: CaptchaResult<Inference>,
                |
                    input@ == cnn.network_input(image, options) && #[trigger] call_ensures(
                        infer,
                        (&input,),
                        outcome,
                    ) && cnn.is_conclusion(outcome, res);
            }
        },
    }
}

/// With a backend for each variant too, a solver that is ready fails with
/// nothing but `ImageTooLarge`, `ModelLoadError` or `ProcessingError`.
pub proof fn lemma_solver_failures_with<
    R: Fn(&RasterImage) -> CaptchaResult<(String, i32)>,
    F: Fn(&RasterImage) -> CaptchaResult<Inference>,
>(
    solver: &CaptchaSolver,
    image: ImageModel,
    options: Option<&PreprocessOptions>,
    recognize: &R,
    infer: &F,
    res: CaptchaResult<SolveResult>,
)
    requires
        solver.ready(),
        solver.is_solution_with(image, options, recognize, infer, res),
    ensures
        res matches Err(e) ==> e is ImageTooLarge || e is ModelLoadError || e is ProcessingError,
{
    match solver {
        CaptchaSolver::Ocr(ocr) => {
            if crate::solvers::preprocessor::can_preprocess(
                image,
                crate::solvers::ocr::effective_options(options),
            ) {
                let (input, outcome) = choose|
                    input: RasterImage,
                    outcome: CaptchaResult<(String, i32)>,
                |
                    input@ == crate::solvers::preprocessor::preprocessed(
                        image,
                        crate::solvers::ocr::effective_options(options),
                    ).luma() && #[trigger] call_ensures(recognize, (&input,), outcome) && match outcome {
                        Err(failure) => res matches Err(reported) && is_backend_failure(
                            failure,
                            reported,
                        ),
                        Ok(reading) => res matches Ok(result) && ocr.is_reading_of(reading, result)
                            && result.wf(),
                    };
            }
        },
        CaptchaSolver::Cnn(cnn) => {
            if cnn.can_prepare(image, options) {
                let (input, outcome) = choose|
                    input: RasterImage,
                    outcome: CaptchaResult<Inference>,
                |
                    input@ == cnn.network_input(image, options) && #[trigger] call_ensures(
                        infer,
                        (&input,),
                        outcome,
                    ) && cnn.is_conclusion(outcome, res);
            }
        },
    }
}

} // verus!
