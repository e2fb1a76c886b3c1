//! What the interface answers: documents about the device, and what a request
//! to change it comes to.

use vstd::prelude::*;
use vstd::string::*;
use crate::camera::v4l2_capture::rotated;
use crate::config::number::{Real, RealValue, ONE_BITS};
use crate::config::types::{Config, RecordingSettings, Settings};
use crate::config::validation::fault;
use crate::text::{decimal, decimal_text, same_text};
use super::json::{array, number, object, string, Json, JsonValue};

verus! {

/// An answer: a status and a document.
pub struct Reply {
    pub status: u16,
    pub body: Json,
}

// ---------------------------------------------------------------------------
// Envelopes
// ---------------------------------------------------------------------------

/// The document of a request that succeeded.
pub open spec fn success(data: JsonValue) -> JsonValue {
    JsonValue::Obj(seq![("ok"@, JsonValue::Bool(true)), ("data"@, data)])
}

/// Wraps a document as that of a request that succeeded.
pub fn ok_env(data: Json) -> (j: Json)
    ensures
        j@ == success(data@),
{
    let j = object().field("ok", Json::Bool(true)).field("data", data);
    proof {
        assert(j@->Obj_0 =~= success(data@)->Obj_0);
    }
    j
}

/// The word for a status.
pub open spec fn code_of(status: u16) -> Seq<char> {
    if status == 400 {
        "bad_request"@
    } else if status == 401 {
        "unauthorized"@
    } else if status == 403 {
        "forbidden"@
    } else if status == 404 {
        "not_found"@
    } else if status == 409 {
        "conflict"@
    } else if status == 429 {
        "rate_limited"@
    } else if status == 501 {
        "not_implemented"@
    } else if status == 503 {
        "setup_required"@
    } else {
        "internal_error"@
    }
}

/// The word for a status.
pub fn error_code(status: u16) -> (code: &'static str)
    ensures
        code@ == code_of(status),
{
    match status {
        400 => "bad_request",
        401 => "unauthorized",
        403 => "forbidden",
        404 => "not_found",
        409 => "conflict",
        429 => "rate_limited",
        501 => "not_implemented",
        503 => "setup_required",
        _ => "internal_error",
    }
}

/// The document of a request that failed.
pub open spec fn failure(status: u16, message: Seq<char>) -> JsonValue {
    JsonValue::Obj(
        seq![
            ("ok"@, JsonValue::Bool(false)),
            ("error"@, JsonValue::Str(code_of(status))),
            ("message"@, JsonValue::Str(message)),
        ],
    )
}

/// Whether an answer is a failure with this status and message.
pub open spec fn is_error(r: Reply, status: u16, message: Seq<char>) -> bool {
    r.status == status && r.body@ == failure(status, message)
}

/// Answers a request that failed.
pub fn err_env(status: u16, message: &str) -> (r: Reply)
    ensures
        is_error(r, status, message@),
{
    let body = object().field("ok", Json::Bool(false)).field(
        "error",
        string(error_code(status)),
    ).field("message", string(message));
    proof {
        assert(body@->Obj_0 =~= failure(status, message@)->Obj_0);
    }
    Reply { status, body }
}

/// Answers a request that failed, with a message in two parts.
pub fn err_env2(status: u16, what: &str, detail: &str) -> (r: Reply)
    ensures
        is_error(r, status, what@ + detail@),
{
    err_env(status, what.to_owned().concat(detail).as_str())
}

/// Whether an optional answer is a failure with this status and message.
pub open spec fn is_some_error(r: Option<Reply>, status: u16, message: Seq<char>) -> bool {
    r matches Some(e) && is_error(e, status, message)
}

// ---------------------------------------------------------------------------
// The device
// ---------------------------------------------------------------------------

/// What of the device is running.
#[derive(Debug, Clone, Copy, PartialEq, Eq, Structural)]
pub struct Running {
    /// Detection.
    pub ai_module: bool,
    /// A way to load other models.
    pub ai_loader: bool,
    /// Frames for pictures.
    pub latest_yuv: bool,
    /// The encoded stream.
    pub au_hub: bool,
}

/// A resolution in words.
pub open spec fn resolution_text(c: Settings) -> Seq<char> {
    let (w, h) = rotated(c.camera.width, c.camera.height, c.camera.rotation);
    decimal(w as nat) + "x"@ + decimal(h as nat)
}

fn resolution(cfg: &Config) -> (text: String)
    ensures
        text@ == resolution_text(cfg@),
{
    let (w, h) = cfg.camera.effective_dims();
    decimal_text(w as u64).concat("x").concat(decimal_text(h as u64).as_str())
}

/// A document of texts.
pub open spec fn str_value(t: Seq<char>) -> JsonValue {
    JsonValue::Str(t)
}

/// A document of a whole number.
pub open spec fn num_value(n: nat) -> JsonValue {
    JsonValue::Num(decimal(n))
}

/// What the status document says.
pub open spec fn status_value(c: Settings, firmware: Seq<char>, uptime: u64) -> JsonValue {
    JsonValue::Obj(
        seq![
            ("device_name"@, str_value(c.device.name)),
            ("model"@, str_value(c.device.model)),
            ("vendor"@, str_value(c.device.manufacturer)),
            ("firmware"@, str_value(firmware)),
            ("resolution"@, str_value(resolution_text(c))),
            ("fps"@, num_value(c.camera.fps as nat)),
            ("bitrate_bps"@, num_value(c.camera.bitrate as nat)),
            ("uptime"@, num_value(uptime as nat)),
            ("recording"@, JsonValue::Bool(c.recording.enabled)),
            ("ai"@, JsonValue::Bool(c.features.ai.enabled)),
            ("gb28181"@, JsonValue::Bool(c.gb28181.enabled)),
        ],
    )
}

/// The status of the device.
pub fn status_doc(cfg: &Config, firmware: &str, uptime: u64) -> (j: Json)
    ensures
        j@ == success(status_value(cfg@, firmware@, uptime)),
{
    let doc = object().field("device_name", string(cfg.device.name.as_str())).field(
        "model",
        string(cfg.device.model.as_str()),
    ).field("vendor", string(cfg.device.manufacturer.as_str())).field(
        "firmware",
        string(firmware),
    ).field("resolution", string(resolution(cfg).as_str())).field(
        "fps",
        number(cfg.camera.fps as u64),
    ).field("bitrate_bps", number(cfg.camera.bitrate)).field("uptime", number(uptime)).field(
        "recording",
        Json::Bool(cfg.recording.enabled),
    ).field("ai", Json::Bool(cfg.features.ai.enabled)).field(
        "gb28181",
        Json::Bool(cfg.gb28181.enabled),
    );
    proof {
        assert(doc@->Obj_0 =~= status_value(cfg@, firmware@, uptime)->Obj_0);
    }
    ok_env(doc)
}

/// Whether models can be switched while running.
pub open spec fn can_switch(r: Running) -> bool {
    r.ai_module && r.ai_loader
}

/// The events that clients may hear of.
pub open spec fn event_names(c: Settings, r: Running) -> Seq<JsonValue> {
    seq![str_value("ai_detection"@), str_value("recording"@)] + (if can_switch(r) {
        seq![str_value("ai_model_changed"@)]
    } else {
        seq![]
    }) + (if c.features.ai.enabled {
        seq![str_value("alarm"@)]
    } else {
        seq![]
    })
}

/// What the document about the device's abilities says.
pub open spec fn capabilities_value(c: Settings, r: Running) -> JsonValue {
    JsonValue::Obj(
        seq![
            ("spec_version"@, str_value("1"@)),
            (
                "device"@,
                JsonValue::Obj(
                    seq![
                        ("name"@, str_value(c.device.name)),
                        ("model"@, str_value(c.device.model)),
                        ("vendor"@, str_value(c.device.manufacturer)),
                    ],
                ),
            ),
            (
                "auth"@,
                JsonValue::Obj(
                    seq![("model"@, str_value("session"@)), ("setup"@, JsonValue::Bool(true))],
                ),
            ),
            ("multi_camera"@, JsonValue::Bool(false)),
            ("camera_management"@, JsonValue::Bool(false)),
            ("camera_control"@, JsonValue::Bool(false)),
            ("imaging"@, JsonValue::Bool(false)),
            ("ai"@, JsonValue::Bool(c.features.ai.enabled)),
            ("ai_models"@, JsonValue::Bool(can_switch(r))),
            ("ai_upload"@, JsonValue::Bool(can_switch(r) && c.features.ai.allow_upload)),
            ("ptz"@, JsonValue::Bool(true)),
            ("hls"@, JsonValue::Bool(false)),
            ("recording"@, JsonValue::Bool(true)),
            ("watermark"@, JsonValue::Bool(true)),
            ("devices"@, JsonValue::Bool(false)),
            ("mjpeg"@, JsonValue::Bool(r.latest_yuv)),
            ("mse"@, JsonValue::Bool(r.au_hub)),
            ("webrtc"@, JsonValue::Bool(false)),
            ("events"@, JsonValue::Arr(event_names(c, r))),
            (
                "config_apply"@,
                JsonValue::Obj(
                    seq![
                        ("default"@, str_value("restart"@)),
                        (
                            "sections"@,
                            JsonValue::Obj(
                                seq![
                                    ("recording"@, str_value("restart"@)),
                                    ("watermark"@, str_value("restart"@)),
                                ],
                            ),
                        ),
                    ],
                ),
            ),
            ("restart"@, JsonValue::Bool(true)),
            (
                "observability"@,
                JsonValue::Obj(
                    seq![
                        ("metrics"@, JsonValue::Bool(true)),
                        ("logs"@, JsonValue::Bool(true)),
                        ("requests"@, JsonValue::Bool(true)),
                    ],
                ),
            ),
        ],
    )
}

fn events_doc(cfg: &Config, r: Running) -> (j: Json)
    ensures
        j@ == JsonValue::Arr(event_names(cfg@, r)),
{
    let mut events = array().item(string("ai_detection")).item(string("recording"));
    if r.ai_module && r.ai_loader {
        events = events.item(string("ai_model_changed"));
    }
    if cfg.features.ai.enabled {
        events = events.item(string("alarm"));
    }
    proof {
        assert(events@->Arr_0 =~= event_names(cfg@, r));
    }
    events
}

fn device_doc(cfg: &Config) -> (j: Json)
    ensures
        j@ == JsonValue::Obj(
            seq![
                ("name"@, str_value(cfg@.device.name)),
                ("model"@, str_value(cfg@.device.model)),
                ("vendor"@, str_value(cfg@.device.manufacturer)),
            ],
        ),
{
    let j = object().field("name", string(cfg.device.name.as_str())).field(
        "model",
        string(cfg.device.model.as_str()),
    ).field("vendor", string(cfg.device.manufacturer.as_str()));
    proof {
        assert(j@->Obj_0 =~= seq![
            ("name"@, str_value(cfg@.device.name)),
            ("model"@, str_value(cfg@.device.model)),
            ("vendor"@, str_value(cfg@.device.manufacturer)),
        ]);
    }
    j
}

fn auth_doc() -> (j: Json)
    ensures
        j@ == JsonValue::Obj(
            seq![("model"@, str_value("session"@)), ("setup"@, JsonValue::Bool(true))],
        ),
{
    let j = object().field("model", string("session")).field("setup", Json::Bool(true));
    proof {
        assert(j@->Obj_0 =~= seq![
            ("model"@, str_value("session"@)),
            ("setup"@, JsonValue::Bool(true)),
        ]);
    }
    j
}

fn apply_doc() -> (j: Json)
    ensures
        j@ == JsonValue::Obj(
            seq![
                ("default"@, str_value("restart"@)),
                (
                    "sections"@,
                    JsonValue::Obj(
                        seq![
                            ("recording"@, str_value("restart"@)),
                            ("watermark"@, str_value("restart"@)),
                        ],
                    ),
                ),
            ],
        ),
{
    let sections = object().field("recording", string("restart")).field(
        "watermark",
        string("restart"),
    );
    proof {
        assert(sections@->Obj_0 =~= seq![
            ("recording"@, str_value("restart"@)),
            ("watermark"@, str_value("restart"@)),
        ]);
    }
    let j = object().field("default", string("restart")).field("sections", sections);
    proof {
        assert(j@->Obj_0 =~= seq![
            ("default"@, str_value("restart"@)),
            ("sections"@, sections@),
        ]);
    }
    j
}

fn observability_doc() -> (j: Json)
    ensures
        j@ == JsonValue::Obj(
            seq![
                ("metrics"@, JsonValue::Bool(true)),
                ("logs"@, JsonValue::Bool(true)),
                ("requests"@, JsonValue::Bool(true)),
            ],
        ),
{
    let j = object().field("metrics", Json::Bool(true)).field("logs", Json::Bool(true)).field(
        "requests",
        Json::Bool(true),
    );
    proof {
        assert(j@->Obj_0 =~= seq![
            ("metrics"@, JsonValue::Bool(true)),
            ("logs"@, JsonValue::Bool(true)),
            ("requests"@, JsonValue::Bool(true)),
        ]);
    }
    j
}

/// What the device is able to do right now.
pub fn capabilities_doc(cfg: &Config, r: Running) -> (j: Json)
    ensures
        j@ == success(capabilities_value(cfg@, r)),
{
    let switch = r.ai_module && r.ai_loader;
    let doc = object().field("spec_version", string("1")).field("device", device_doc(cfg)).field(
        "auth",
        auth_doc(),
    ).field("multi_camera", Json::Bool(false)).field("camera_management", Json::Bool(false)).field(
        "camera_control",
        Json::Bool(false),
    ).field("imaging", Json::Bool(false)).field("ai", Json::Bool(cfg.features.ai.enabled)).field(
        "ai_models",
        Json::Bool(switch),
    ).field("ai_upload", Json::Bool(switch && cfg.features.ai.allow_upload)).field(
        "ptz",
        Json::Bool(true),
    ).field("hls", Json::Bool(false)).field("recording", Json::Bool(true)).field(
        "watermark",
        Json::Bool(true),
    ).field("devices", Json::Bool(false)).field("mjpeg", Json::Bool(r.latest_yuv)).field(
        "mse",
        Json::Bool(r.au_hub),
    ).field("webrtc", Json::Bool(false)).field("events", events_doc(cfg, r)).field(
        "config_apply",
        apply_doc(),
    ).field("restart", Json::Bool(true)).field("observability", observability_doc());
    proof {
        assert(doc@->Obj_0 =~= capabilities_value(cfg@, r)->Obj_0);
    }
    ok_env(doc)
}

/// A document with one text.
pub open spec fn one_text(name: Seq<char>, text: Seq<char>) -> JsonValue {
    JsonValue::Obj(seq![(name, JsonValue::Str(text))])
}

fn one_text_doc(name: &str, text: &str) -> (j: Json)
    ensures
        j@ == one_text(name@, text@),
{
    let j = object().field(name, string(text));
    proof {
        assert(j@->Obj_0 =~= one_text(name@, text@)->Obj_0);
    }
    j
}

/// Answers a request to restart.
pub fn restart_doc() -> (j: Json)
    ensures
        j@ == success(one_text("status"@, "restarting"@)),
{
    ok_env(one_text_doc("status", "restarting"))
}

/// The liveness document.
pub fn health_doc(uptime: u64) -> (j: Json)
    ensures
        j@ == success(
            JsonValue::Obj(seq![("status"@, str_value("ok"@)), ("uptime"@, num_value(uptime as nat))]),
        ),
{
    let doc = object().field("status", string("ok")).field("uptime", number(uptime));
    proof {
        assert(doc@->Obj_0 =~= seq![
            ("status"@, str_value("ok"@)),
            ("uptime"@, num_value(uptime as nat)),
        ]);
    }
    ok_env(doc)
}

// ---------------------------------------------------------------------------
// The camera
// ---------------------------------------------------------------------------

/// What the document of the only camera says.
pub open spec fn camera_value(c: Settings, r: Running) -> JsonValue {
    JsonValue::Obj(
        seq![
            ("id"@, str_value("0"@)),
            ("name"@, str_value(c.device.name)),
            (
                "status"@,
                str_value(if r.latest_yuv || r.au_hub { "online"@ } else { "offline"@ }),
            ),
            ("camera_type"@, str_value("csi"@)),
            ("resolution"@, str_value(resolution_text(c))),
            ("fps"@, num_value(c.camera.fps as nat)),
        ],
    )
}

/// The document of the only camera.
pub fn camera_doc(cfg: &Config, r: Running) -> (j: Json)
    ensures
        j@ == camera_value(cfg@, r),
{
    let status = if r.latest_yuv || r.au_hub {
        "online"
    } else {
        "offline"
    };
    let j = object().field("id", string("0")).field("name", string(cfg.device.name.as_str())).field(
        "status",
        string(status),
    ).field("camera_type", string("csi")).field(
        "resolution",
        string(resolution(cfg).as_str()),
    ).field("fps", number(cfg.camera.fps as u64));
    proof {
        assert(j@->Obj_0 =~= camera_value(cfg@, r)->Obj_0);
    }
    j
}

/// The list of cameras.
pub fn cameras_list(cfg: &Config, r: Running) -> (j: Json)
    ensures
        j@ == success(JsonValue::Arr(seq![camera_value(cfg@, r)])),
{
    let list = array().item(camera_doc(cfg, r));
    proof {
        assert(list@->Arr_0 =~= seq![camera_value(cfg@, r)]);
    }
    ok_env(list)
}

/// Whether an answer is a success with this document.
pub open spec fn is_success(r: Reply, data: JsonValue) -> bool {
    r.status == 200 && r.body@ == success(data)
}

fn success_reply(data: Json) -> (r: Reply)
    ensures
        is_success(r, data@),
{
    Reply { status: 200, body: ok_env(data) }
}

/// Answers a request for a camera: there is only the one.
pub fn camera_get(id: &str, cfg: &Config, r: Running) -> (reply: Reply)
    ensures
        id@ == "0"@ ==> is_success(reply, camera_value(cfg@, r)),
        id@ != "0"@ ==> is_error(reply, 404, "no such camera"@),
{
    if !same_text(id, "0") {
        return err_env(404, "no such camera");
    }
    success_reply(camera_doc(cfg, r))
}

/// What the document about recording says.
pub open spec fn recording_value(r: RecordingSettings) -> JsonValue {
    JsonValue::Obj(
        seq![
            ("active"@, JsonValue::Bool(r.enabled)),
            ("storage_path"@, str_value(r.storage_path)),
            ("segment_secs"@, num_value(r.segment_secs as nat)),
            ("retention_days"@, num_value(r.retention_days as nat)),
        ],
    )
}

/// Answers a request for the state of recording.
pub fn recording_status(id: &str, cfg: &Config) -> (reply: Reply)
    ensures
        id@ == "0"@ ==> is_success(reply, recording_value(cfg@.recording)),
        id@ != "0"@ ==> is_error(reply, 404, "no such camera"@),
{
    if !same_text(id, "0") {
        return err_env(404, "no such camera");
    }
    let rec = &cfg.recording;
    let j = object().field("active", Json::Bool(rec.enabled)).field(
        "storage_path",
        string(rec.storage_path.as_str()),
    ).field("segment_secs", number(rec.segment_secs)).field(
        "retention_days",
        number(rec.retention_days as u64),
    );
    proof {
        assert(j@->Obj_0 =~= recording_value(cfg@.recording)->Obj_0);
    }
    success_reply(j)
}

/// The body of a request to switch recording.
#[derive(Debug, Clone, Copy, PartialEq, Eq, Structural)]
pub struct RecordingRequest {
    pub active: bool,
}

/// Decides a request to switch recording: changes the configuration that is to
/// be saved, or answers that there is no such camera.
pub fn recording_set(id: &str, req: RecordingRequest, cfg: &mut Config) -> (refusal: Option<Reply>)
    ensures
        refusal is None <==> id@ == "0"@,
        id@ != "0"@ ==> is_some_error(refusal, 404, "no such camera"@),
        final(cfg)@ == (if id@ == "0"@ {
            Settings {
                recording: RecordingSettings { enabled: req.active, ..old(cfg)@.recording },
                ..old(cfg)@
            }
        } else {
            old(cfg)@
        }),
{
    if !same_text(id, "0") {
        return Some(err_env(404, "no such camera"));
    }
    cfg.recording.enabled = req.active;
    None
}

/// Answers a request to switch recording that has been saved.
pub fn recording_set_doc(active: bool) -> (j: Json)
    ensures
        j@ == success(
            JsonValue::Obj(
                seq![("active"@, JsonValue::Bool(active)), ("applies_at"@, str_value("restart"@))],
            ),
        ),
{
    let doc = object().field("active", Json::Bool(active)).field("applies_at", string("restart"));
    proof {
        assert(doc@->Obj_0 =~= seq![
            ("active"@, JsonValue::Bool(active)),
            ("applies_at"@, str_value("restart"@)),
        ]);
    }
    ok_env(doc)
}

/// The event that recording was switched.
pub fn recording_event(active: bool) -> (j: Json)
    ensures
        j@ == JsonValue::Obj(
            seq![("camera_id"@, str_value("0"@)), ("active"@, JsonValue::Bool(active))],
        ),
{
    let j = object().field("camera_id", string("0")).field("active", Json::Bool(active));
    proof {
        assert(j@->Obj_0 =~= seq![
            ("camera_id"@, str_value("0"@)),
            ("active"@, JsonValue::Bool(active)),
        ]);
    }
    j
}

/// The event of an alarm.
pub fn alarm_event(targets: usize, timestamp_ms: u64) -> (j: Json)
    ensures
        j@ == JsonValue::Obj(
            seq![
                ("camera_id"@, str_value("0"@)),
                ("active"@, JsonValue::Bool(true)),
                ("source"@, str_value("ai"@)),
                ("targets"@, num_value(targets as nat)),
                ("timestamp"@, num_value(timestamp_ms as nat)),
            ],
        ),
{
    let j = object().field("camera_id", string("0")).field("active", Json::Bool(true)).field(
        "source",
        string("ai"),
    ).field("targets", number(targets as u64)).field("timestamp", number(timestamp_ms));
    proof {
        assert(j@->Obj_0 =~= seq![
            ("camera_id"@, str_value("0"@)),
            ("active"@, JsonValue::Bool(true)),
            ("source"@, str_value("ai"@)),
            ("targets"@, num_value(targets as nat)),
            ("timestamp"@, num_value(timestamp_ms as nat)),
        ]);
    }
    j
}

/// The event of detections in a frame.
pub fn detection_event(detections: Json, frame_number: u64) -> (j: Json)
    ensures
        j@ == JsonValue::Obj(
            seq![
                ("camera_id"@, str_value("0"@)),
                ("detections"@, detections@),
                ("frame_number"@, num_value(frame_number as nat)),
            ],
        ),
{
    let j = object().field("camera_id", string("0")).field("detections", detections).field(
        "frame_number",
        number(frame_number),
    );
    proof {
        assert(j@->Obj_0 =~= seq![
            ("camera_id"@, str_value("0"@)),
            ("detections"@, detections@),
            ("frame_number"@, num_value(frame_number as nat)),
        ]);
    }
    j
}

// ---------------------------------------------------------------------------
// The configuration
// ---------------------------------------------------------------------------

/// Whether a configuration is to be saved: where there is a file for it.
pub fn is_persistent(config_path: &str) -> (yes: bool)
    ensures
        yes == (config_path@.len() > 0),
{
    !config_path.is_empty()
}

/// How saving a configuration failed.
pub enum SaveError {
    /// It could not be written down.
    Format(String),
    /// The file could not be written.
    Write(String),
}

/// What is said of a configuration that could not be saved.
pub open spec fn save_failure(e: SaveError) -> Seq<char> {
    match e {
        SaveError::Format(t) => "TOML serialization failed: "@ + t@,
        SaveError::Write(t) => "Failed to write config: "@ + t@,
    }
}

/// Answers a request whose configuration could not be saved.
pub fn save_error(e: &SaveError) -> (r: Reply)
    ensures
        is_error(r, 500, save_failure(*e)),
{
    match e {
        SaveError::Format(t) => err_env2(500, "TOML serialization failed: ", t.as_str()),
        SaveError::Write(t) => err_env2(500, "Failed to write config: ", t.as_str()),
    }
}

/// Answers a request whose document is no configuration.
pub fn not_a_config(detail: &str) -> (r: Reply)
    ensures
        is_error(r, 400, "invalid config: "@ + detail@),
{
    err_env2(400, "invalid config: ", detail)
}

/// Decides whether a new configuration is taken: a valid one.
pub fn check_config(config: &Config) -> (refusal: Option<Reply>)
    ensures
        refusal is None <==> fault(config@) is None,
        fault(config@) matches Some(t) ==> is_some_error(
            refusal,
            400,
            "Validation error: "@ + t,
        ),
{
    match config.validate() {
        Ok(()) => None,
        Err(e) => Some(err_env(400, e.to_string().as_str())),
    }
}

/// Answers a change of the configuration that has been saved.
pub fn config_applied_doc() -> (j: Json)
    ensures
        j@ == success(one_text("applied"@, "restart"@)),
{
    ok_env(one_text_doc("applied", "restart"))
}

/// What a document asks for: a configuration without a fault, or none, with
/// what is wrong with the document.
pub open spec fn asked_for(parsed: Result<Config, String>) -> Result<Config, Seq<char>> {
    match parsed {
        Ok(config) => match fault(config@) {
            None => Ok(config),
            Some(t) => Err("Validation error: "@ + t),
        },
        Err(detail) => Err("invalid config: "@ + detail@),
    }
}

/// Whether a configuration and a refusal are what is decided on a change: the
/// configuration that is asked for, without a refusal, or the stored one, with
/// what is wrong.
pub open spec fn is_decision(
    decided: Config,
    refusal: Option<Reply>,
    stored: Config,
    parsed: Result<Config, String>,
) -> bool {
    match asked_for(parsed) {
        Ok(config) => decided == config && refusal is None,
        Err(what) => decided == stored && is_some_error(refusal, 400, what),
    }
}

/// Decides on a change of the configuration, before anything is saved: the
/// configuration that is to be saved and stored, and the refusal, if there is
/// one. `parsed` is what the stored document reads as once the change has been
/// merged into it. Where the change is refused, what is stored stays.
pub fn decide_put(stored: Config, parsed: Result<Config, String>) -> (r: (Config, Option<Reply>))
    ensures
        is_decision(r.0, r.1, stored, parsed),
{
    match parsed {
        Ok(config) => match check_config(&config) {
            None => (config, None),
            Some(refusal) => (stored, Some(refusal)),
        },
        Err(detail) => (stored, Some(not_a_config(detail.as_str()))),
    }
}

/// The configuration that is stored after a change: the one that was asked
/// for, where it has no fault and could be saved, else the one from before.
pub open spec fn stored_after_put(
    stored: Config,
    parsed: Result<Config, String>,
    saved: Result<(), SaveError>,
) -> Config {
    match asked_for(parsed) {
        Ok(config) => match saved {
            Ok(()) => config,
            Err(_) => stored,
        },
        Err(_) => stored,
    }
}

/// Takes in whether a decided configuration could be saved: gives the one that
/// is stored from then on, and the answer.
pub fn finish_put(stored: Config, decided: Config, saved: Result<(), SaveError>) -> (r: (
    Config,
    Reply,
))
    ensures
        match saved {
            Ok(()) => {
                &&& r.0 == decided
                &&& r.1.status == 200
                &&& r.1.body@ == success(one_text("applied"@, "restart"@))
            },
            Err(e) => r.0 == stored && is_error(r.1, 500, save_failure(e)),
        },
{
    match saved {
        Ok(()) => (decided, Reply { status: 200, body: config_applied_doc() }),
        Err(e) => (stored, save_error(&e)),
    }
}

/// A change of the configuration is taken whole or not at all: a document that
/// reads as a configuration without a fault is what is stored, once it has
/// been saved; any other document, and one that could not be saved, changes
/// nothing. `decided` and `refusal` are what was decided on it.
pub proof fn changes_are_taken_whole_or_not_at_all(
    stored: Config,
    parsed: Result<Config, String>,
    saved: Result<(), SaveError>,
    decided: Config,
    refusal: Option<Reply>,
)
    requires
        is_decision(decided, refusal, stored, parsed),
    ensures
        parsed is Ok && fault(parsed->Ok_0@) is None && saved is Ok ==> stored_after_put(
            stored,
            parsed,
            saved,
        ) == parsed->Ok_0,
        parsed is Err || fault(parsed->Ok_0@) is Some || saved is Err ==> stored_after_put(
            stored,
            parsed,
            saved,
        ) == stored,
        stored_after_put(stored, parsed, saved) == (if refusal is None && saved is Ok {
            decided
        } else {
            stored
        }),
{
}

/// Answers a reset of the configuration that has been saved.
pub fn config_reset_doc() -> (j: Json)
    ensures
        j@ == success(one_text("message"@, "config reset"@)),
{
    ok_env(one_text_doc("message", "config reset"))
}

// ---------------------------------------------------------------------------
// Detections
// ---------------------------------------------------------------------------

/// The model that is said to run: the running one, else the one that was
/// found at the start.
pub open spec fn model_said(active: Option<Seq<char>>, at_start: Option<Seq<char>>) -> Seq<char> {
    match active {
        Some(m) => m,
        None => match at_start {
            Some(m) => m,
            None => "unknown"@,
        },
    }
}

/// A text that may be absent.
pub open spec fn optional(t: Option<String>) -> Option<Seq<char>> {
    match t {
        Some(t) => Some(t@),
        None => None,
    }
}

/// Names the model that runs: `active` is that of a running module, `at_start`
/// that of the detector found at the start.
pub fn model_name(active: Option<String>, at_start: Option<String>) -> (name: String)
    ensures
        name@ == model_said(optional(active), optional(at_start)),
{
    match active {
        Some(m) => m,
        None => match at_start {
            Some(m) => m,
            None => "unknown".to_owned(),
        },
    }
}

/// What the document about the latest detections says.
pub open spec fn detections_value(
    detections: Option<JsonValue>,
    model: Seq<char>,
    timestamp: u64,
) -> JsonValue {
    match detections {
        Some(d) => JsonValue::Obj(
            seq![
                ("detections"@, d),
                ("model"@, str_value(model)),
                ("timestamp"@, num_value(timestamp as nat)),
            ],
        ),
        None => JsonValue::Obj(seq![("enabled"@, JsonValue::Bool(false))]),
    }
}

/// The latest detections, where detection runs.
pub fn detections_doc(detections: Option<Json>, model: &str, timestamp: u64) -> (j: Json)
    ensures
        j@ == success(
            detections_value(
                match detections {
                    Some(d) => Some(d@),
                    None => None,
                },
                model@,
                timestamp,
            ),
        ),
{
    match detections {
        Some(d) => {
            let ghost value = detections_value(Some(d@), model@, timestamp);
            let j = object().field("detections", d).field("model", string(model)).field(
                "timestamp",
                number(timestamp),
            );
            proof {
                assert(j@->Obj_0 =~= value->Obj_0);
            }
            ok_env(j)
        },
        None => {
            let j = object().field("enabled", Json::Bool(false));
            proof {
                assert(j@->Obj_0 =~= detections_value(None, model@, timestamp)->Obj_0);
            }
            ok_env(j)
        },
    }
}

// ---------------------------------------------------------------------------
// Position
// ---------------------------------------------------------------------------

/// Where the camera looks. The text of each number is the one it has in a
/// document.
#[derive(Debug)]
pub struct PtzStatus {
    pub pan: Real,
    pub tilt: Real,
    pub zoom: Real,
}

/// A position.
#[verifier::ext_equal]
pub struct Position {
    pub pan: RealValue,
    pub tilt: RealValue,
    pub zoom: RealValue,
}

impl View for PtzStatus {
    type V = Position;

    open spec fn view(&self) -> Position {
        Position { pan: self.pan@, tilt: self.tilt@, zoom: self.zoom@ }
    }
}

/// Straight ahead, in either direction.
pub open spec fn centre() -> RealValue {
    RealValue { bits: 0x3fe0_0000_0000_0000, text: "0.5"@ }
}

/// No zoom.
pub open spec fn unzoomed() -> RealValue {
    RealValue { bits: ONE_BITS, text: "1.0"@ }
}

fn default_pan() -> (r: Real)
    ensures
        r@ == centre(),
{
    Real { bits: 0x3fe0_0000_0000_0000, text: "0.5".to_owned() }
}

fn default_tilt() -> (r: Real)
    ensures
        r@ == centre(),
{
    Real { bits: 0x3fe0_0000_0000_0000, text: "0.5".to_owned() }
}

fn default_zoom() -> (r: Real)
    ensures
        r@ == unzoomed(),
{
    Real { bits: ONE_BITS, text: "1.0".to_owned() }
}

impl Default for PtzStatus {
    fn default() -> (p: Self)
        ensures
            p@ == (Position { pan: centre(), tilt: centre(), zoom: unzoomed() }),
    {
        PtzStatus { pan: default_pan(), tilt: default_tilt(), zoom: default_zoom() }
    }
}

/// What the document about the position says.
pub open spec fn ptz_value(p: Position) -> JsonValue {
    JsonValue::Obj(
        seq![
            ("pan"@, JsonValue::Num(p.pan.text)),
            ("tilt"@, JsonValue::Num(p.tilt.text)),
            ("zoom"@, JsonValue::Num(p.zoom.text)),
        ],
    )
}

/// The position of the camera.
pub fn ptz_status(ptz: &PtzStatus) -> (j: Json)
    ensures
        j@ == success(ptz_value(ptz@)),
{
    let j = object().field("pan", Json::Num(ptz.pan.text.clone())).field(
        "tilt",
        Json::Num(ptz.tilt.text.clone()),
    ).field("zoom", Json::Num(ptz.zoom.text.clone()));
    proof {
        assert(j@->Obj_0 =~= ptz_value(ptz@)->Obj_0);
    }
    ok_env(j)
}

/// A request to move the camera.
#[derive(Debug)]
pub struct PtzMoveRequest {
    pub pan: Option<Real>,
    pub tilt: Option<Real>,
    pub zoom: Option<Real>,
}

/// A number of a request, or the one that stands for its absence.
pub open spec fn given_or(r: Option<Real>, absent: RealValue) -> RealValue {
    match r {
        Some(r) => r@,
        None => absent,
    }
}

/// Where a request moves the camera: what it does not give goes to its default.
pub open spec fn target(req: PtzMoveRequest) -> Position {
    Position {
        pan: given_or(req.pan, centre()),
        tilt: given_or(req.tilt, centre()),
        zoom: given_or(req.zoom, unzoomed()),
    }
}

/// Moves the camera, and gives its new position.
pub fn ptz_move(ptz: &mut PtzStatus, req: PtzMoveRequest) -> (j: Json)
    ensures
        final(ptz)@ == target(req),
        j@ == success(ptz_value(target(req))),
{
    ptz.pan = match req.pan {
        Some(r) => r,
        None => default_pan(),
    };
    ptz.tilt = match req.tilt {
        Some(r) => r,
        None => default_tilt(),
    };
    ptz.zoom = match req.zoom {
        Some(r) => r,
        None => default_zoom(),
    };
    ptz_status(ptz)
}

/// A change that is refused is answered with what is wrong with it, and one
/// that could not be saved with what kept it from being saved.
pub proof fn refused_changes_say_why(config: Config, detail: String)
    ensures
        asked_for(Err(detail)) == Err::<Config, Seq<char>>("invalid config: "@ + detail@),
        fault(config@) is None ==> asked_for(Ok(config)) == Ok::<Config, Seq<char>>(config),
        fault(config@) is Some ==> asked_for(Ok(config)) == Err::<Config, Seq<char>>(
            "Validation error: "@ + fault(config@)->0,
        ),
        save_failure(SaveError::Format(detail)) == "TOML serialization failed: "@ + detail@,
        save_failure(SaveError::Write(detail)) == "Failed to write config: "@ + detail@,
{
}

} // verus!
