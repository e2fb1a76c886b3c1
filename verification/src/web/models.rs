//! The models that detection can run: which requests about them are granted,
//! and what they are answered.

use vstd::prelude::*;
use vstd::slice::*;
use vstd::string::*;
use crate::ai::{is_model_id, valid_model_id};
use crate::config::types::{
    default_ai_model_path, AiSettings, Config, FeatureSettings, Settings,
};
use crate::streaming::rtp::push_bytes;
use crate::text::{decimal, decimal_text, same_text};
use super::api::{
    err_env, err_env2, is_error, is_some_error, num_value, ok_env, str_value, success, Reply,
};
use super::json::{array, number, object, string, Json, JsonValue};

verus! {

/// How the answers of a model are read.
#[derive(Debug, Clone, Copy, PartialEq, Eq, Structural)]
pub enum Family {
    NanoDet,
    Yolox,
}

/// The word for a family.
pub open spec fn family_word(f: Family) -> Seq<char> {
    match f {
        Family::NanoDet => "nanodet"@,
        Family::Yolox => "yolox"@,
    }
}

/// The family that a word names.
pub open spec fn family_named(word: Seq<char>) -> Option<Family> {
    if word == "nanodet"@ {
        Some(Family::NanoDet)
    } else if word == "yolox"@ {
        Some(Family::Yolox)
    } else {
        None
    }
}

impl Family {
    /// Reads the word for a family.
    pub fn parse_family(word: &str) -> (f: Option<Self>)
        ensures
            f == family_named(word@),
    {
        if same_text(word, "nanodet") {
            Some(Family::NanoDet)
        } else if same_text(word, "yolox") {
            Some(Family::Yolox)
        } else {
            None
        }
    }

    /// The word for the family.
    pub fn as_str(&self) -> (word: &'static str)
        ensures
            word@ == family_word(*self),
    {
        match self {
            Family::NanoDet => "nanodet",
            Family::Yolox => "yolox",
        }
    }
}

/// A family is read back from its word.
pub proof fn families_are_read_back(f: Family)
    ensures
        family_named(family_word(f)) == Some(f),
{
    reveal_strlit("nanodet");
    reveal_strlit("yolox");
    assert("nanodet"@.len() != "yolox"@.len());
}

/// A model of the registry.
#[derive(Debug)]
pub struct ModelSpec {
    pub id: String,
    pub family: String,
    /// Side length of the pictures that it takes.
    pub input: u32,
    pub path: String,
    /// Where it is from.
    pub source: String,
}

/// What a [`ModelSpec`] says.
pub struct Model {
    pub id: Seq<char>,
    pub family: Seq<char>,
    pub input: u32,
    pub path: Seq<char>,
    pub source: Seq<char>,
}

impl View for ModelSpec {
    type V = Model;

    open spec fn view(&self) -> Model {
        Model {
            id: self.id@,
            family: self.family@,
            input: self.input,
            path: self.path@,
            source: self.source@,
        }
    }
}

/// Why a model did not load.
#[derive(Debug)]
pub enum ActivateError {
    Unavailable(String),
    LoadFailed(String),
}

// ---------------------------------------------------------------------------
// The list
// ---------------------------------------------------------------------------

/// What the document of a model says.
pub open spec fn model_value(id: Seq<char>, m: Model, source: Seq<char>, available: bool) -> JsonValue {
    JsonValue::Obj(
        seq![
            ("id"@, str_value(id)),
            ("family"@, str_value(m.family)),
            ("input"@, num_value(m.input as nat)),
            ("source"@, str_value(source)),
            ("available"@, JsonValue::Bool(available)),
        ],
    )
}

fn model_doc(id: &str, m: &ModelSpec, source: &str, available: bool) -> (j: Json)
    ensures
        j@ == model_value(id@, m@, source@, available),
{
    let j = object().field("id", string(id)).field("family", string(m.family.as_str())).field(
        "input",
        number(m.input as u64),
    ).field("source", string(source)).field("available", Json::Bool(available));
    proof {
        assert(j@->Obj_0 =~= model_value(id@, m@, source@, available)->Obj_0);
    }
    j
}

/// A model, and whether its file is there.
pub struct Listed {
    pub spec: ModelSpec,
    pub available: bool,
}

/// What the entry of a model in the list says.
pub open spec fn entry(l: Listed) -> JsonValue {
    model_value(l.spec@.id, l.spec@, l.spec@.source, l.available)
}

/// What the entries of models say.
pub open spec fn entries(models: Seq<Listed>) -> Seq<JsonValue> {
    models.map_values(|l: Listed| entry(l))
}

/// The entry of a model that the configuration names by its file.
pub open spec fn custom_entry(resolved: Option<Listed>) -> Seq<JsonValue> {
    match resolved {
        Some(l) => if l.spec@.source == "custom"@ {
            seq![model_value("custom"@, l.spec@, "custom"@, l.available)]
        } else {
            seq![]
        },
        None => seq![],
    }
}

/// What may be uploaded.
#[derive(Debug, Clone, Copy, PartialEq, Eq, Structural)]
pub struct UploadLimits {
    pub allowed: bool,
    pub max_bytes: u64,
}

/// What the document about what may be uploaded says.
pub open spec fn limits_value(u: UploadLimits) -> JsonValue {
    JsonValue::Obj(
        seq![
            ("allowed"@, JsonValue::Bool(u.allowed)),
            ("max_bytes"@, num_value(u.max_bytes as nat)),
        ],
    )
}

/// What the document about the models says.
pub open spec fn models_value(
    active: Seq<char>,
    models: Seq<Listed>,
    resolved: Option<Listed>,
    upload: Option<UploadLimits>,
) -> JsonValue {
    let fields = seq![
        ("active"@, str_value(active)),
        ("models"@, JsonValue::Arr(entries(models) + custom_entry(resolved))),
    ];
    JsonValue::Obj(
        match upload {
            Some(u) => fields.push(("upload"@, limits_value(u))),
            None => fields,
        },
    )
}

fn models_array(models: &Vec<Listed>) -> (j: Json)
    ensures
        j@ == JsonValue::Arr(entries(models@)),
{
    let mut j = array();
    proof {
        assert(entries(models@.take(0)) =~= seq![]);
    }
    let mut i: usize = 0;
    while i < models.len()
        invariant
            i <= models.len(),
            j@ == JsonValue::Arr(entries(models@.take(i as int))),
        decreases models.len() - i,
    {
        let l = &models[i];
        j = j.item(model_doc(l.spec.id.as_str(), &l.spec, l.spec.source.as_str(), l.available));
        proof {
            assert(entries(models@.take(i + 1)) =~= entries(models@.take(i as int)).push(
                entry(models@[i as int]),
            ));
        }
        i = i + 1;
    }
    proof {
        assert(models@.take(models@.len() as int) =~= models@);
    }
    j
}

fn limits_doc(u: UploadLimits) -> (j: Json)
    ensures
        j@ == limits_value(u),
{
    let j = object().field("allowed", Json::Bool(u.allowed)).field(
        "max_bytes",
        number(u.max_bytes),
    );
    proof {
        assert(j@->Obj_0 =~= limits_value(u)->Obj_0);
    }
    j
}

/// The models of the registry, with the one that the configuration comes to
/// where it is named by its file.
pub fn models_doc(
    active: &str,
    models: &Vec<Listed>,
    resolved: &Option<Listed>,
    upload: Option<UploadLimits>,
) -> (j: Json)
    ensures
        j@ == success(models_value(active@, models@, *resolved, upload)),
{
    let mut list = models_array(models);
    if let Some(l) = resolved {
        if same_text(l.spec.source.as_str(), "custom") {
            list = list.item(model_doc("custom", &l.spec, "custom", l.available));
        }
    }
    proof {
        assert(list@->Arr_0 =~= entries(models@) + custom_entry(*resolved));
    }
    let mut j = object().field("active", string(active)).field("models", list);
    if let Some(u) = upload {
        j = j.field("upload", limits_doc(u));
    }
    proof {
        assert(j@->Obj_0 =~= models_value(active@, models@, *resolved, upload)->Obj_0);
    }
    ok_env(j)
}

// ---------------------------------------------------------------------------
// Activation
// ---------------------------------------------------------------------------

/// What a model is loaded from.
pub struct Load {
    pub path: String,
    pub family: Family,
}

/// How a model is read: as the family that it names, and one that names none
/// as the first.
pub open spec fn family_or_default(word: Seq<char>) -> Family {
    match family_named(word) {
        Some(f) => f,
        None => Family::NanoDet,
    }
}

/// Whether a plan is a refusal with this status and message.
pub open spec fn is_refused<T>(r: Result<T, Reply>, status: u16, message: Seq<char>) -> bool {
    r matches Err(e) && is_error(e, status, message)
}

/// Whether a plan is to load this file in this way.
pub open spec fn is_load(r: Result<Load, Reply>, m: Model) -> bool {
    r matches Ok(l) && l.path@ == m.path && l.family == family_or_default(m.family)
}

/// Decides a request to run a model: what to load, or why it is refused.
/// `found` is the model that the registry has under the name.
pub fn plan_activation(
    ai_module: bool,
    ai_loader: bool,
    id: &str,
    found: Option<ModelSpec>,
) -> (plan: Result<Load, Reply>)
    ensures
        !ai_module ==> is_refused(plan, 501, "AI module not running"@),
        ai_module && !ai_loader ==> is_refused(
            plan,
            501,
            "model hot-switch unavailable in this build"@,
        ),
        ai_module && ai_loader ==> match found {
            Some(m) => is_load(plan, m@),
            None => is_refused(plan, 404, "unknown model id: "@ + id@),
        },
{
    if !ai_module {
        return Err(err_env(501, "AI module not running"));
    }
    if !ai_loader {
        return Err(err_env(501, "model hot-switch unavailable in this build"));
    }
    match found {
        Some(m) => {
            let family = match Family::parse_family(m.family.as_str()) {
                Some(f) => f,
                None => Family::NanoDet,
            };
            Ok(Load { path: m.path, family })
        },
        None => Err(err_env2(404, "unknown model id: ", id)),
    }
}

/// Answers a request whose model did not load.
pub fn map_activate_error(e: ActivateError) -> (r: Reply)
    ensures
        e matches ActivateError::Unavailable(m) ==> is_error(r, 409, m@),
        e matches ActivateError::LoadFailed(m) ==> is_error(r, 500, m@),
{
    match e {
        ActivateError::Unavailable(m) => err_env(409, m.as_str()),
        ActivateError::LoadFailed(m) => err_env(500, m.as_str()),
    }
}

/// Answers a request whose loading was cut short.
pub fn loader_failed(detail: &str) -> (r: Reply)
    ensures
        is_error(r, 500, "model loader task failed: "@ + detail@),
{
    err_env2(500, "model loader task failed: ", detail)
}

/// Settings with another model, named by its id alone.
pub open spec fn with_model(c: Settings, id: Seq<char>) -> Settings {
    Settings {
        features: FeatureSettings {
            ai: AiSettings {
                model: id,
                model_path: "/var/lib/mibee-eye/models/nanodet-m.onnx"@,
                ..c.features.ai
            },
            ..c.features
        },
        ..c
    }
}

/// Notes the model that now runs in the configuration.
pub fn set_active_model(cfg: &mut Config, id: &str)
    ensures
        final(cfg)@ == with_model(old(cfg)@, id@),
{
    cfg.features.ai.model = id.to_owned();
    cfg.features.ai.model_path = default_ai_model_path();
}

/// Answers a request to run a model that has been granted.
pub fn activated_doc(id: &str) -> (j: Json)
    ensures
        j@ == success(
            JsonValue::Obj(
                seq![("active"@, str_value(id@)), ("applied"@, str_value("immediate"@))],
            ),
        ),
{
    let j = object().field("active", string(id)).field("applied", string("immediate"));
    proof {
        assert(j@->Obj_0 =~= seq![
            ("active"@, str_value(id@)),
            ("applied"@, str_value("immediate"@)),
        ]);
    }
    ok_env(j)
}

/// The event that another model runs.
pub fn model_changed_event(id: &str) -> (j: Json)
    ensures
        j@ == JsonValue::Obj(seq![("camera_id"@, str_value("0"@)), ("model"@, str_value(id@))]),
{
    let j = object().field("camera_id", string("0")).field("model", string(id));
    proof {
        assert(j@->Obj_0 =~= seq![("camera_id"@, str_value("0"@)), ("model"@, str_value(id@))]);
    }
    j
}

// ---------------------------------------------------------------------------
// Upload
// ---------------------------------------------------------------------------

/// A text between quotes, with what cannot be shown escaped.
pub uninterp spec fn quoted_of(text: Seq<char>) -> Seq<char>;

/// Calls std's `Debug` formatting of a `str`. What is claimed is that the
/// result depends on the text alone.
#[verifier::external_body]
fn quoted(text: &str) -> (q: String)
    ensures
        q@ == quoted_of(text@),
{
    format!("{text:?}")
}

/// Whether an upload may begin.
pub open spec fn upload_refusal(
    allow_upload: bool,
    ai_loader: bool,
    id: Seq<char>,
    quoted_id: Seq<char>,
    exists: bool,
    has_dir: bool,
) -> Option<(u16, Seq<char>)> {
    if !allow_upload {
        Some((501, "model upload disabled (features.ai.allow_upload)"@))
    } else if !ai_loader {
        Some((501, "model upload unavailable in this build"@))
    } else if !is_model_id(id) {
        Some((400, "invalid model id "@ + quoted_id + " (want ^[a-z0-9][a-z0-9-]{0,63}$)"@))
    } else if exists {
        Some((409, "model id already exists: "@ + id))
    } else if !has_dir {
        Some((501, "no models directory configured"@))
    } else {
        None
    }
}

/// Whether an answer is the refusal that is due, if one is.
pub open spec fn is_refusal(r: Option<Reply>, due: Option<(u16, Seq<char>)>) -> bool {
    match due {
        Some((status, message)) => is_some_error(r, status, message),
        None => r is None,
    }
}

/// Decides whether an upload may begin, given how its name is shown.
pub fn check_upload_shown(
    allow_upload: bool,
    ai_loader: bool,
    id: &str,
    quoted_id: &str,
    exists: bool,
    has_dir: bool,
) -> (refusal: Option<Reply>)
    ensures
        is_refusal(
            refusal,
            upload_refusal(allow_upload, ai_loader, id@, quoted_id@, exists, has_dir),
        ),
{
    if !allow_upload {
        return Some(err_env(501, "model upload disabled (features.ai.allow_upload)"));
    }
    if !ai_loader {
        return Some(err_env(501, "model upload unavailable in this build"));
    }
    if !valid_model_id(id) {
        let what = "invalid model id ".to_owned().concat(quoted_id);
        return Some(err_env2(400, what.as_str(), " (want ^[a-z0-9][a-z0-9-]{0,63}$)"));
    }
    if exists {
        return Some(err_env2(409, "model id already exists: ", id));
    }
    if !has_dir {
        return Some(err_env(501, "no models directory configured"));
    }
    None
}

/// Decides whether an upload may begin. `exists` says whether the registry has
/// the name, `has_dir` whether there is a place for models.
pub fn check_upload(
    allow_upload: bool,
    ai_loader: bool,
    id: &str,
    exists: bool,
    has_dir: bool,
) -> (refusal: Option<Reply>)
    ensures
        is_refusal(
            refusal,
            upload_refusal(allow_upload, ai_loader, id@, quoted_of(id@), exists, has_dir),
        ),
{
    let shown = quoted(id);
    check_upload_shown(allow_upload, ai_loader, id, shown.as_str(), exists, has_dir)
}

/// What a field of an upload is for.
#[derive(Debug, Clone, Copy, PartialEq, Eq, Structural)]
pub enum UploadField {
    Family,
    File,
    Other,
}

/// The use of a field with a name.
pub open spec fn field_use(name: Seq<char>) -> UploadField {
    if name == "family"@ {
        UploadField::Family
    } else if name == "file"@ {
        UploadField::File
    } else {
        UploadField::Other
    }
}

/// Tells what a field of an upload is for.
pub fn upload_field(name: &str) -> (f: UploadField)
    ensures
        f == field_use(name@),
{
    if same_text(name, "family") {
        UploadField::Family
    } else if same_text(name, "file") {
        UploadField::File
    } else {
        UploadField::Other
    }
}

/// Takes a piece of the file, unless the file would exceed `max` bytes.
pub fn add_chunk(file: &mut Vec<u8>, chunk: &[u8], max: usize) -> (refusal: Option<Reply>)
    ensures
        refusal is None <==> old(file)@.len() + chunk@.len() <= max,
        old(file)@.len() + chunk@.len() > max ==> is_some_error(
            refusal,
            413,
            "model exceeds max_bytes ("@ + decimal(max as nat) + ")"@,
        ),
        final(file)@ == with_chunk(old(file)@, chunk@, max as nat),
{
    let n: usize = chunk.len();
    if n > max || file.len() > max - n {
        let what = "model exceeds max_bytes (".to_owned().concat(decimal_text(max as u64).as_str());
        return Some(err_env2(413, what.as_str(), ")"));
    }
    push_bytes(file, chunk);
    None
}

/// The pieces of a file, put together.
pub open spec fn joined(chunks: Seq<Seq<u8>>) -> Seq<u8>
    decreases chunks.len(),
{
    if chunks.len() == 0 {
        Seq::empty()
    } else {
        joined(chunks.drop_last()) + chunks.last()
    }
}

/// A file after one more piece, where pieces that do not fit are left out.
pub open spec fn with_chunk(file: Seq<u8>, chunk: Seq<u8>, max: nat) -> Seq<u8> {
    if file.len() + chunk.len() <= max {
        file + chunk
    } else {
        file
    }
}

/// A file that starts empty, after all these pieces.
pub open spec fn received(chunks: Seq<Seq<u8>>, max: nat) -> Seq<u8>
    decreases chunks.len(),
{
    if chunks.len() == 0 {
        Seq::empty()
    } else {
        with_chunk(received(chunks.drop_last(), max), chunks.last(), max)
    }
}

/// However a file is cut into pieces, all of it arrives where it is within the
/// limit, and never more than the limit is held.
pub proof fn uploads_arrive_whole(chunks: Seq<Seq<u8>>, max: nat)
    ensures
        received(chunks, max).len() <= max,
        joined(chunks).len() <= max ==> received(chunks, max) == joined(chunks),
    decreases chunks.len(),
{
    if chunks.len() > 0 {
        uploads_arrive_whole(chunks.drop_last(), max);
    }
}

/// Whether a form gives this family and this file.
pub open spec fn is_form(r: Result<(Family, Vec<u8>), Reply>, f: Family, file: Seq<u8>) -> bool {
    r matches Ok(form) && form.0 == f && form.1@ == file
}

/// Decides on the fields of an upload, once all have been read.
pub fn finish_form(family: Option<String>, file: Option<Vec<u8>>) -> (form: Result<
    (Family, Vec<u8>),
    Reply,
>)
    ensures
        match family {
            None => is_refused(form, 400, "missing family field"@),
            Some(word) => match family_named(word@) {
                None => is_refused(form, 400, "family must be nanodet or yolox"@),
                Some(f) => match file {
                    None => is_refused(form, 400, "missing file field"@),
                    Some(b) => is_form(form, f, b@),
                },
            },
        },
{
    let word = match family {
        Some(word) => word,
        None => {
            return Err(err_env(400, "missing family field"));
        },
    };
    let f = match Family::parse_family(word.as_str()) {
        Some(f) => f,
        None => {
            return Err(err_env(400, "family must be nanodet or yolox"));
        },
    };
    match file {
        Some(b) => Ok((f, b)),
        None => Err(err_env(400, "missing file field")),
    }
}

/// Where an upload can be cut short.
#[derive(Debug, Clone, Copy, PartialEq, Eq, Structural)]
pub enum UploadStep {
    /// Going from field to field.
    Multipart,
    /// Reading the family.
    Family,
    /// Reading the file.
    File,
    /// Making the directory.
    MakeDir,
    /// Writing the file.
    Write,
    /// Trying the model.
    Validate,
    /// Moving the file into place.
    Rename,
    /// Entering the model in the registry.
    Register,
}

/// What an upload that was cut short is answered, before the detail.
pub open spec fn step_failure(step: UploadStep) -> (u16, Seq<char>) {
    match step {
        UploadStep::Multipart => (400, "invalid multipart: "@),
        UploadStep::Family => (400, "family field: "@),
        UploadStep::File => (400, "file field: "@),
        UploadStep::MakeDir => (500, "models dir: "@),
        UploadStep::Write => (500, "write: "@),
        UploadStep::Validate => (500, "model validator task failed: "@),
        UploadStep::Rename => (500, "rename: "@),
        UploadStep::Register => (500, "manifest write failed: "@),
    }
}

/// Answers an upload that was cut short.
pub fn upload_failed(step: UploadStep, detail: &str) -> (r: Reply)
    ensures
        is_error(r, step_failure(step).0, step_failure(step).1 + detail@),
{
    match step {
        UploadStep::Multipart => err_env2(400, "invalid multipart: ", detail),
        UploadStep::Family => err_env2(400, "family field: ", detail),
        UploadStep::File => err_env2(400, "file field: ", detail),
        UploadStep::MakeDir => err_env2(500, "models dir: ", detail),
        UploadStep::Write => err_env2(500, "write: ", detail),
        UploadStep::Validate => err_env2(500, "model validator task failed: ", detail),
        UploadStep::Rename => err_env2(500, "rename: ", detail),
        UploadStep::Register => err_env2(500, "manifest write failed: ", detail),
    }
}

/// What a failure to load says.
pub open spec fn reason(e: ActivateError) -> Seq<char> {
    match e {
        ActivateError::Unavailable(m) => m@,
        ActivateError::LoadFailed(m) => m@,
    }
}

/// Answers an upload whose model did not load.
pub fn model_rejected(e: &ActivateError) -> (r: Reply)
    ensures
        is_error(r, 400, "model failed validation: "@ + reason(*e)),
{
    match e {
        ActivateError::Unavailable(m) => err_env2(400, "model failed validation: ", m.as_str()),
        ActivateError::LoadFailed(m) => err_env2(400, "model failed validation: ", m.as_str()),
    }
}

/// The name of the file of an upload that is not yet accepted.
pub fn upload_temp_name(id: &str) -> (name: String)
    ensures
        name@ == ".upload-"@ + id@ + ".tmp"@,
{
    ".upload-".to_owned().concat(id).concat(".tmp")
}

/// The name of the file of an accepted upload.
pub fn model_file_name(id: &str) -> (name: String)
    ensures
        name@ == id@ + ".onnx"@,
{
    id.to_owned().concat(".onnx")
}

/// An accepted upload does not take the place of one that is not yet accepted.
pub proof fn file_names_are_apart(id: Seq<char>, other: Seq<char>)
    requires
        is_model_id(id),
    ensures
        id + ".onnx"@ != ".upload-"@ + other + ".tmp"@,
{
    reveal_strlit(".upload-");
    assert((id + ".onnx"@)[0] == id[0]);
    assert((".upload-"@ + other + ".tmp"@)[0] == '.');
}

/// The model of an accepted upload.
pub fn uploaded_spec(id: &str, family: Family, input: u32, path: &str) -> (spec: ModelSpec)
    ensures
        spec@ == (Model {
            id: id@,
            family: family_word(family),
            input,
            path: path@,
            source: "uploaded"@,
        }),
{
    ModelSpec {
        id: id.to_owned(),
        family: family.as_str().to_owned(),
        input,
        path: path.to_owned(),
        source: "uploaded".to_owned(),
    }
}

/// Answers an accepted upload.
pub fn uploaded_reply(spec: &ModelSpec) -> (r: Reply)
    ensures
        r.status == 201,
        r.body@ == success(model_value(spec@.id, spec@, spec@.source, true)),
{
    let body = ok_env(model_doc(spec.id.as_str(), spec, spec.source.as_str(), true));
    Reply { status: 201, body }
}

// ---------------------------------------------------------------------------
// Removal
// ---------------------------------------------------------------------------

/// Decides whether a model may be removed. `active` is the one that runs.
pub fn check_delete(allow_upload: bool, active: Option<String>, id: &str) -> (refusal: Option<Reply>)
    ensures
        !allow_upload ==> is_some_error(
            refusal,
            501,
            "model upload disabled (features.ai.allow_upload)"@,
        ),
        allow_upload ==> match active {
            Some(a) => if a@ == id@ {
                is_some_error(
                    refusal,
                    409,
                    "cannot delete the active model; activate another first"@,
                )
            } else {
                refusal is None
            },
            None => refusal is None,
        },
{
    if !allow_upload {
        return Some(err_env(501, "model upload disabled (features.ai.allow_upload)"));
    }
    if let Some(a) = active {
        if same_text(a.as_str(), id) {
            return Some(
                err_env(409, "cannot delete the active model; activate another first"),
            );
        }
    }
    None
}

/// Answers a removal: nothing more is said of one that took place. `removed`
/// says whether an uploaded model went, `known` whether the registry has one
/// with the name still.
pub fn finish_delete(removed: bool, known: bool, id: &str) -> (refusal: Option<Reply>)
    ensures
        removed ==> refusal is None,
        !removed && known ==> is_some_error(refusal, 409, "builtin models cannot be deleted"@),
        !removed && !known ==> is_some_error(refusal, 404, "unknown model id: "@ + id@),
{
    if removed {
        None
    } else if known {
        Some(err_env(409, "builtin models cannot be deleted"))
    } else {
        Some(err_env2(404, "unknown model id: ", id))
    }
}

/// A name that may be uploaded is refused for what is in its way alone: that
/// uploads are off, that nothing could load it, that it is no name, that it is
/// taken, or that there is no place for it, in this order.
pub proof fn uploads_are_refused_for_a_reason(
    allow: bool,
    loader: bool,
    id: Seq<char>,
    quoted_id: Seq<char>,
    taken: bool,
    has_dir: bool,
)
    ensures
        upload_refusal(allow, loader, id, quoted_id, taken, has_dir) is None <==> allow && loader
            && is_model_id(id) && !taken && has_dir,
        upload_refusal(false, loader, id, quoted_id, taken, has_dir) == Some(
            (501u16, "model upload disabled (features.ai.allow_upload)"@),
        ),
        upload_refusal(true, false, id, quoted_id, taken, has_dir) == Some(
            (501u16, "model upload unavailable in this build"@),
        ),
        !is_model_id(id) ==> upload_refusal(true, true, id, quoted_id, taken, has_dir) == Some(
            (
                400u16,
                "invalid model id "@ + quoted_id + " (want ^[a-z0-9][a-z0-9-]{0,63}$)"@,
            ),
        ),
        is_model_id(id) ==> upload_refusal(true, true, id, quoted_id, true, has_dir) == Some(
            (409u16, "model id already exists: "@ + id),
        ),
        is_model_id(id) ==> upload_refusal(true, true, id, quoted_id, false, false) == Some(
            (501u16, "no models directory configured"@),
        ),
{
}

/// Noting another model changes the model and the way that it is named, and
/// nothing else.
pub proof fn only_the_model_is_noted(c: Settings, id: Seq<char>)
    ensures
        with_model(c, id).features.ai.model == id,
        with_model(c, id).features.ai.model_path == "/var/lib/mibee-eye/models/nanodet-m.onnx"@,
        (Settings {
            features: FeatureSettings {
                ai: AiSettings {
                    model: c.features.ai.model,
                    model_path: c.features.ai.model_path,
                    ..with_model(c, id).features.ai
                },
                ..with_model(c, id).features
            },
            ..with_model(c, id)
        }) == c,
{
}

/// A model is read as the family that it names, by either of the two words; any
/// other is read as the first.
pub proof fn families_are_named(word: Seq<char>)
    ensures
        family_or_default("nanodet"@) is NanoDet,
        family_or_default("yolox"@) is Yolox,
        word != "yolox"@ ==> family_or_default(word) is NanoDet,
        family_named(word) is Some <==> word == "nanodet"@ || word == "yolox"@,
{
    families_are_read_back(Family::NanoDet);
    families_are_read_back(Family::Yolox);
}

/// An upload is made of two fields, the family and the file; others are passed
/// over.
pub proof fn uploads_have_two_fields(name: Seq<char>)
    ensures
        field_use(name) is Family <==> name == "family"@,
        field_use(name) is File <==> name == "file"@,
{
    reveal_strlit("family");
    reveal_strlit("file");
    assert("family"@.len() != "file"@.len());
}

/// What is said of an upload that was cut short tells where; what the client
/// sent is the client's fault, and what the device does its own.
pub proof fn cut_uploads_tell_where(step: UploadStep)
    ensures
        step_failure(step).0 == 400 <==> step is Multipart || step is Family || step is File,
        step_failure(step).0 == 400 || step_failure(step).0 == 500,
        step_failure(UploadStep::Multipart).1 == "invalid multipart: "@,
        step_failure(UploadStep::Family).1 == "family field: "@,
        step_failure(UploadStep::File).1 == "file field: "@,
        step_failure(UploadStep::MakeDir).1 == "models dir: "@,
        step_failure(UploadStep::Write).1 == "write: "@,
        step_failure(UploadStep::Validate).1 == "model validator task failed: "@,
        step_failure(UploadStep::Rename).1 == "rename: "@,
        step_failure(UploadStep::Register).1 == "manifest write failed: "@,
{
}

} // verus!
