//! The models: which can be downloaded, and where the model file comes from.

use vstd::prelude::*;
use vstd::string::*;

use crate::text;

verus! {

/// A model file in a repository.
#[derive(Clone, Copy, Debug)]
pub struct HuggingFace {
    pub repo: &'static str,
    pub model: &'static str,
}

/// How many models can be downloaded.
pub const MODEL_COUNT: usize = 8;

/// Downloadable models: name, repository and file, in the order of their names.
///
/// TranslateGemma has a native translation prompt: Q5_K_M is the best quality that still fits
/// fully on a 4 GB GPU, Q4_K_M needs about 320 MiB less VRAM, for GPUs shared with e.g. video
/// transcoding. The others are general-purpose chat models with a generic translation prompt.
pub const MODELS: [(&'static str, &'static str, &'static str); 8] = [
    ("gemma3-12b", "libretranslate/gemma3", "gemma-3-12b-it-q4_0.gguf"),
    ("gemma3-1b", "libretranslate/gemma3", "gemma-3-1b-it-q4_0.gguf"),
    ("gemma3-27b", "libretranslate/gemma3", "gemma-3-27b-it-q4_0.gguf"),
    ("gemma3-4b", "libretranslate/gemma3", "gemma-3-4b-it-q4_0.gguf"),
    ("gemma4-e4b", "bartowski/google_gemma-4-E4B-it-GGUF", "google_gemma-4-E4B-it-Q4_0.gguf"),
    (
        "translategemma-12b",
        "mradermacher/translategemma-12b-it-GGUF",
        "translategemma-12b-it.Q4_K_M.gguf",
    ),
    (
        "translategemma-4b",
        "mradermacher/translategemma-4b-it-GGUF",
        "translategemma-4b-it.Q5_K_M.gguf",
    ),
    (
        "translategemma-4b-q4",
        "mradermacher/translategemma-4b-it-GGUF",
        "translategemma-4b-it.Q4_K_M.gguf",
    ),
];

/// Name of the default model.
pub const DEFAULT_MODEL: &'static str = "translategemma-4b";

/// An interrupted download is stale after so many nanoseconds.
pub const STALE_AFTER: u128 = 600_000_000_000;

/// `id` is the name of the downloadable model at `i`.
pub open spec fn names_model(i: int, id: Seq<char>) -> bool {
    0 <= i < MODEL_COUNT && MODELS@[i].0@ == id
}

/// A model file in a repository, as texts.
pub struct HuggingFaceView {
    pub repo: Seq<char>,
    pub model: Seq<char>,
}

impl View for HuggingFace {
    type V = HuggingFaceView;

    open spec fn view(&self) -> HuggingFaceView {
        HuggingFaceView { repo: self.repo@, model: self.model@ }
    }
}

/// The file of the downloadable model with a name.
pub open spec fn file_of_model(id: Seq<char>) -> Option<HuggingFaceView> {
    if is_model(id) {
        let i = choose|i: int| names_model(i, id);
        Some(HuggingFaceView { repo: MODELS@[i].1@, model: MODELS@[i].2@ })
    } else {
        None
    }
}

/// Find a downloadable model by its name.
pub fn find_model(id: &str) -> (r: Option<HuggingFace>)
    ensures
        match r {
            Some(hf) => exists|i: int|
                names_model(i, id@) && hf.repo@ == MODELS@[i].1@ && hf.model@ == MODELS@[i].2@,
            None => forall|i: int| !names_model(i, id@),
        },
        (match r {
            Some(hf) => Some(hf@),
            None => None,
        }) == file_of_model(id@),
{
    let mut i: usize = 0;
    while i < MODEL_COUNT
        invariant
            i <= MODEL_COUNT,
            forall|k: int| 0 <= k < i ==> !names_model(k, id@),
        decreases MODEL_COUNT - i,
    {
        if text::same(MODELS[i].0, id) {
            assert(names_model(i as int, id@));
            proof {
                law_model_names_are_unique(i as int, choose|k: int| names_model(k, id@));
            }
            return Some(HuggingFace { repo: MODELS[i].1, model: MODELS[i].2 });
        }
        i = i + 1;
    }
    None
}

/// The names of the downloadable models.
pub fn model_names() -> (r: Vec<&'static str>)
    ensures
        r.len() == MODEL_COUNT,
        forall|i: int| 0 <= i < MODEL_COUNT ==> (#[trigger] r[i])@ == MODELS@[i].0@,
{
    let mut r: Vec<&'static str> = Vec::new();
    let mut i: usize = 0;
    while i < MODEL_COUNT
        invariant
            i <= MODEL_COUNT,
            r.len() == i,
            forall|k: int| 0 <= k < i ==> (#[trigger] r[k])@ == MODELS@[k].0@,
        decreases MODEL_COUNT - i,
    {
        r.push(MODELS[i].0);
        i = i + 1;
    }
    r
}

/// Where the model file comes from.
#[derive(Debug)]
pub enum ModelSource {
    /// A local file.
    Local(String),
    /// The cached download, which is downloaded once if needed.
    Download(HuggingFace),
}

/// Why there is no model file.
#[derive(Debug)]
pub enum ModelError {
    /// The local path is no model file.
    NotGguf(String),
    /// No downloadable model has this name.
    Unknown(String),
}

impl ModelError {
    /// What is told about the error.
    pub open spec fn text(&self) -> Seq<char> {
        match self {
            ModelError::NotGguf(path) => "invalid path or not a .gguf file: "@ + path@,
            ModelError::Unknown(id) => "unknown model: "@ + id@,
        }
    }

    /// What is told about the error.
    pub fn message(&self) -> (r: String)
        ensures
            r@ == self.text(),
    {
        match self {
            ModelError::NotGguf(path) => {
                let mut r = "invalid path or not a .gguf file: ".to_owned();
                r.append(path.as_str());
                r
            },
            ModelError::Unknown(id) => {
                let mut r = "unknown model: ".to_owned();
                r.append(id.as_str());
                r
            },
        }
    }
}

/// `id` is the name of a downloadable model.
pub open spec fn is_model(id: Seq<char>) -> bool {
    exists|i: int| names_model(i, id)
}

/// Where the model file comes from, as texts.
pub enum ModelSourceView {
    Local(Seq<char>),
    Download(HuggingFaceView),
}

impl View for ModelSource {
    type V = ModelSourceView;

    open spec fn view(&self) -> ModelSourceView {
        match self {
            ModelSource::Local(path) => ModelSourceView::Local(path@),
            ModelSource::Download(hf) => ModelSourceView::Download(hf@),
        }
    }
}

/// Where the model file comes from, or what is told where there is none.
pub open spec fn model_source(
    model_id: Seq<char>,
    model_file: Seq<char>,
    is_file: bool,
    extension: Option<Seq<char>>,
) -> Result<ModelSourceView, Seq<char>> {
    if model_file.len() > 0 {
        if is_file && extension == Some("gguf"@) {
            Ok(ModelSourceView::Local(model_file))
        } else {
            Err("invalid path or not a .gguf file: "@ + model_file)
        }
    } else {
        match file_of_model(model_id) {
            Some(hf) => Ok(ModelSourceView::Download(hf)),
            None => Err("unknown model: "@ + model_id),
        }
    }
}

/// Law: a local file that is given is used whatever model is named, if it is a file with the right
/// extension, and else refused by its path; without one, the named model is downloaded, or refused
/// by its name. Either way the refusal tells what was asked for.
pub proof fn law_local_file_comes_first(
    model_id: Seq<char>,
    other_id: Seq<char>,
    model_file: Seq<char>,
    is_file: bool,
    extension: Option<Seq<char>>,
    other_extension: Option<Seq<char>>,
)
    ensures
        model_file.len() > 0 ==> {
            &&& model_source(model_id, model_file, is_file, extension) == model_source(
                other_id,
                model_file,
                is_file,
                extension,
            )
            &&& model_source(model_id, model_file, true, Some("gguf"@)) == Ok::<
                ModelSourceView,
                Seq<char>,
            >(ModelSourceView::Local(model_file))
            &&& model_source(model_id, model_file, false, extension) is Err
            &&& extension != Some("gguf"@) ==> model_source(
                model_id,
                model_file,
                is_file,
                extension,
            ) is Err
        },
        model_file.len() == 0 ==> {
            &&& model_source(model_id, model_file, is_file, extension) is Ok <==> is_model(model_id)
            &&& model_source(model_id, model_file, is_file, extension) == model_source(
                model_id,
                model_file,
                !is_file,
                other_extension,
            )
        },
        model_source(model_id, model_file, is_file, extension) matches Err(told) ==> (
        if model_file.len() > 0 {
            model_file
        } else {
            model_id
        }).is_suffix_of(told),
{
    let path = "invalid path or not a .gguf file: "@ + model_file;
    assert(model_file =~= path.subrange(path.len() - model_file.len(), path.len() as int));
    let name = "unknown model: "@ + model_id;
    assert(model_id =~= name.subrange(name.len() - model_id.len(), name.len() as int));
}

/// Resolve the model file: a local path if `model_file` is set, otherwise the download of
/// `model_id`. `is_file` and `extension` tell of the local path whether it is a file and what
/// its extension is.
pub fn load_model(model_id: &str, model_file: &str, is_file: bool, extension: Option<&str>) -> (r:
    Result<ModelSource, ModelError>)
    ensures
        match r {
            Ok(ModelSource::Local(path)) => model_file@.len() > 0 && path@ == model_file@ && is_file
                && (extension matches Some(e) && e@ == "gguf"@),
            Ok(ModelSource::Download(hf)) => model_file@.len() == 0 && exists|i: int|
                names_model(i, model_id@) && hf.repo@ == MODELS@[i].1@ && hf.model@
                    == MODELS@[i].2@,
            Err(ModelError::NotGguf(path)) => model_file@.len() > 0 && path@ == model_file@ && !(
            is_file && (extension matches Some(e) && e@ == "gguf"@)),
            Err(ModelError::Unknown(id)) => model_file@.len() == 0 && id@ == model_id@ && !is_model(
                model_id@,
            ),
        },
        (match r {
            Ok(source) => Ok(source@),
            Err(e) => Err(e.text()),
        }) == model_source(
            model_id@,
            model_file@,
            is_file,
            match extension {
                Some(e) => Some(e@),
                None => None,
            },
        ),
{
    if model_file.unicode_len() != 0 {
        let gguf = match extension {
            Some(e) => text::same(e, "gguf"),
            None => false,
        };
        return if is_file && gguf {
            Ok(ModelSource::Local(model_file.to_owned()))
        } else {
            Err(ModelError::NotGguf(model_file.to_owned()))
        };
    }
    match find_model(model_id) {
        Some(hf) => Ok(ModelSource::Download(hf)),
        None => Err(ModelError::Unknown(model_id.to_owned())),
    }
}

/// What an interrupted download left behind can go.
pub open spec fn stale(age: Option<u128>) -> bool {
    age matches Some(age) && age > STALE_AFTER
}

/// Law: what was written within the last ten minutes stays, and what is older goes; and where the
/// age is not known, it stays.
pub proof fn law_downloads_go_after_ten_minutes(age: u128)
    ensures
        stale(Some(age)) <==> age > 10 * 60 * 1_000_000_000,
        !stale(None),
{
}

/// Whether what an interrupted download left behind can go, from the nanoseconds since it was
/// last written, where that is known.
pub fn is_stale_download(age: Option<u128>) -> (r: bool)
    ensures
        r == stale(age),
{
    match age {
        Some(age) => age > STALE_AFTER,
        None => false,
    }
}

/// Law: no two downloadable models have the same name.
pub proof fn law_model_names_are_unique(i: int, j: int)
    requires
        0 <= i < MODEL_COUNT,
        0 <= j < MODEL_COUNT,
        MODELS@[i].0@ == MODELS@[j].0@,
    ensures
        i == j,
{
    reveal_strlit("gemma3-12b");
    reveal_strlit("gemma3-1b");
    reveal_strlit("gemma3-27b");
    reveal_strlit("gemma3-4b");
    reveal_strlit("gemma4-e4b");
    reveal_strlit("translategemma-12b");
    reveal_strlit("translategemma-4b");
    reveal_strlit("translategemma-4b-q4");
    assert(i == 0 || i == 1 || i == 2 || i == 3 || i == 4 || i == 5 || i == 6 || i == 7);
    assert(j == 0 || j == 1 || j == 2 || j == 3 || j == 4 || j == 5 || j == 6 || j == 7);
    let a = MODELS@[i].0@;
    let b = MODELS@[j].0@;
    assert(a.len() == b.len());
    assert(a[7] == b[7]);
    assert(a[5] == b[5]);
}

/// Law: every downloadable model is found by its name, with its own repository and file: a `.gguf`
/// file of a repository with an owner.
pub proof fn law_every_model_is_found(i: int)
    requires
        0 <= i < 8,
    ensures
        file_of_model(MODELS@[i].0@) matches Some(hf) && hf.repo == MODELS@[i].1@ && hf.model
            == MODELS@[i].2@ && hf.repo.contains('/') && !hf.model.contains('/')
            && ".gguf"@.is_suffix_of(hf.model),
{
    let id = MODELS@[i].0@;
    assert(names_model(i, id));
    law_model_names_are_unique(i, choose|k: int| names_model(k, id));
    reveal_strlit(".gguf");
    reveal_strlit("libretranslate/gemma3");
    reveal_strlit("bartowski/google_gemma-4-E4B-it-GGUF");
    reveal_strlit("mradermacher/translategemma-12b-it-GGUF");
    reveal_strlit("mradermacher/translategemma-4b-it-GGUF");
    reveal_strlit("gemma-3-12b-it-q4_0.gguf");
    reveal_strlit("gemma-3-1b-it-q4_0.gguf");
    reveal_strlit("gemma-3-27b-it-q4_0.gguf");
    reveal_strlit("gemma-3-4b-it-q4_0.gguf");
    reveal_strlit("google_gemma-4-E4B-it-Q4_0.gguf");
    reveal_strlit("translategemma-12b-it.Q4_K_M.gguf");
    reveal_strlit("translategemma-4b-it.Q5_K_M.gguf");
    reveal_strlit("translategemma-4b-it.Q4_K_M.gguf");
    let repo = MODELS@[i].1@;
    let model = MODELS@[i].2@;
    if i < 4 {
        assert(repo[14] == '/');
    } else if i == 4 {
        assert(repo[9] == '/');
    } else {
        assert(repo[12] == '/');
    }
    assert(".gguf"@ =~= model.subrange(model.len() - 5, model.len() as int));
}

/// Law: the default model can be downloaded.
pub proof fn law_default_model_exists()
    ensures
        is_model(DEFAULT_MODEL@),
{
    assert(names_model(6, DEFAULT_MODEL@));
}

} // verus!
