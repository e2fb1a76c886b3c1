//! What a client finds in the documents of the interface.

use vstd::prelude::*;
use crate::camera::v4l2_capture::rotated;
use crate::config::number::RealValue;
use crate::config::types::{RecordingSettings, Settings};
use crate::text::{decimal, decimals_are_read_back, find, lemma_find_first, parse_unsigned};
use super::api::{
    camera_value, capabilities_value, code_of, detections_value, failure, model_said, num_value,
    ptz_value, recording_value, resolution_text, status_value, success, target,
    Position, PtzMoveRequest, Running,
};
use super::json::{with_field, with_item, Fields, JsonValue};
use super::models::{
    custom_entry, entries, entry, limits_value, model_value, models_value, Listed, Model,
    UploadLimits,
};

verus! {

/// Whether a document is an object with this value under a name.
pub open spec fn says(doc: JsonValue, name: Seq<char>, value: JsonValue) -> bool {
    doc matches JsonValue::Obj(fields) && fields.contains((name, value))
}

/// Whether a document has a text under a name.
pub open spec fn says_text(doc: JsonValue, name: Seq<char>, text: Seq<char>) -> bool {
    says(doc, name, JsonValue::Str(text))
}

/// Whether a document has a whole number under a name, in digits that are read
/// as it.
pub open spec fn says_number(doc: JsonValue, name: Seq<char>, n: nat) -> bool {
    exists|digits: Seq<char>| #[trigger]
        says(doc, name, JsonValue::Num(digits)) && parse_unsigned(digits, n) == Some(n)
}

/// Whether a document has yes or no under a name.
pub open spec fn says_whether(doc: JsonValue, name: Seq<char>, yes: bool) -> bool {
    says(doc, name, JsonValue::Bool(yes))
}

proof fn lemma_says(fields: Fields, i: int)
    requires
        0 <= i < fields.len(),
    ensures
        says(JsonValue::Obj(fields), fields[i].0, fields[i].1),
{
    assert(fields[i] == (fields[i].0, fields[i].1));
    assert(fields.contains(fields[i]));
}

proof fn lemma_says_number(fields: Fields, i: int, n: nat)
    requires
        0 <= i < fields.len(),
        fields[i].1 == num_value(n),
    ensures
        says_number(JsonValue::Obj(fields), fields[i].0, n),
{
    lemma_says(fields, i);
    decimals_are_read_back(n, n);
}

/// The document of a request that succeeded says so and carries what was asked
/// for; that of one that failed says so, with a word and a message.
pub proof fn outcomes_are_told(data: JsonValue, status: u16, message: Seq<char>)
    ensures
        says_whether(success(data), "ok"@, true),
        says(success(data), "data"@, data),
        says_whether(failure(status, message), "ok"@, false),
        says_text(failure(status, message), "error"@, code_of(status)),
        says_text(failure(status, message), "message"@, message),
{
    let f = success(data)->Obj_0;
    lemma_says(f, 0);
    lemma_says(f, 1);
    let g = failure(status, message)->Obj_0;
    lemma_says(g, 0);
    lemma_says(g, 1);
    lemma_says(g, 2);
}

/// Each status that a client can act on has its own word; any other is an
/// error of the device.
pub proof fn statuses_have_words(status: u16)
    ensures
        code_of(400) == "bad_request"@,
        code_of(401) == "unauthorized"@,
        code_of(403) == "forbidden"@,
        code_of(404) == "not_found"@,
        code_of(409) == "conflict"@,
        code_of(429) == "rate_limited"@,
        code_of(501) == "not_implemented"@,
        code_of(503) == "setup_required"@,
        !seq![400u16, 401, 403, 404, 409, 429, 501, 503].contains(status) ==> code_of(status)
            == "internal_error"@,
{
    let known = seq![400u16, 401, 403, 404, 409, 429, 501, 503];
    assert(known[0] == 400 && known[1] == 401 && known[2] == 403 && known[3] == 404 && known[4]
        == 409 && known[5] == 429 && known[6] == 501 && known[7] == 503);
}

/// The resolution is told as width and height with an `x` between them, of the
/// picture as it is once turned.
pub proof fn resolutions_are_read_back(c: Settings)
    ensures
        ({
            let t = resolution_text(c);
            let turned = c.camera.rotation == 90 || c.camera.rotation == 270;
            let i = find(t, 'x');
            &&& i < t.len()
            &&& parse_unsigned(t.take(i), u32::MAX as nat) == Some(
                if turned {
                    c.camera.height as nat
                } else {
                    c.camera.width as nat
                },
            )
            &&& parse_unsigned(t.skip(i + 1), u32::MAX as nat) == Some(
                if turned {
                    c.camera.width as nat
                } else {
                    c.camera.height as nat
                },
            )
        }),
{
    reveal_strlit("x");
    let (w, h) = rotated(c.camera.width, c.camera.height, c.camera.rotation);
    decimals_are_read_back(w as nat, u32::MAX as nat);
    decimals_are_read_back(h as nat, u32::MAX as nat);
    let (a, b) = (decimal(w as nat), decimal(h as nat));
    let t = resolution_text(c);
    let n = a.len() as int;
    assert(t[n] == "x"@[0]);
    assert forall|k: int| 0 <= k < n implies t[k] != 'x' by {
        assert(t[k] == a[k]);
    }
    lemma_find_first(t, 'x', 0, n);
    assert(t.take(n) =~= a);
    assert(t.skip(n + 1) =~= b);
}

/// The status document tells the identity, the picture and what is on.
pub proof fn the_status_is_told(c: Settings, firmware: Seq<char>, uptime: u64)
    ensures
        ({
            let doc = status_value(c, firmware, uptime);
            &&& says_text(doc, "device_name"@, c.device.name)
            &&& says_text(doc, "model"@, c.device.model)
            &&& says_text(doc, "vendor"@, c.device.manufacturer)
            &&& says_text(doc, "firmware"@, firmware)
            &&& says_text(doc, "resolution"@, resolution_text(c))
            &&& says_number(doc, "fps"@, c.camera.fps as nat)
            &&& says_number(doc, "bitrate_bps"@, c.camera.bitrate as nat)
            &&& says_number(doc, "uptime"@, uptime as nat)
            &&& says_whether(doc, "recording"@, c.recording.enabled)
            &&& says_whether(doc, "ai"@, c.features.ai.enabled)
            &&& says_whether(doc, "gb28181"@, c.gb28181.enabled)
        }),
{
    let f = status_value(c, firmware, uptime)->Obj_0;
    lemma_says(f, 0);
    lemma_says(f, 1);
    lemma_says(f, 2);
    lemma_says(f, 3);
    lemma_says(f, 4);
    lemma_says_number(f, 5, c.camera.fps as nat);
    lemma_says_number(f, 6, c.camera.bitrate as nat);
    lemma_says_number(f, 7, uptime as nat);
    lemma_says(f, 8);
    lemma_says(f, 9);
    lemma_says(f, 10);
}

/// The document about the abilities tells what can be had of the device as it
/// runs: models can be switched where detection runs and others can be loaded,
/// and uploaded where that is allowed too.
pub proof fn abilities_are_told(c: Settings, r: Running)
    ensures
        ({
            let doc = capabilities_value(c, r);
            let switch = r.ai_module && r.ai_loader;
            &&& says_whether(doc, "ai"@, c.features.ai.enabled)
            &&& says_whether(doc, "ai_models"@, switch)
            &&& says_whether(doc, "ai_upload"@, switch && c.features.ai.allow_upload)
            &&& says_whether(doc, "mjpeg"@, r.latest_yuv)
            &&& says_whether(doc, "mse"@, r.au_hub)
            &&& says_whether(doc, "ptz"@, true)
            &&& says_whether(doc, "recording"@, true)
            &&& says_whether(doc, "watermark"@, true)
            &&& says_whether(doc, "restart"@, true)
            &&& says_whether(doc, "multi_camera"@, false)
            &&& says_whether(doc, "hls"@, false)
            &&& says_whether(doc, "webrtc"@, false)
            &&& exists|events: Seq<JsonValue>|
                {
                    &&& #[trigger] says(doc, "events"@, JsonValue::Arr(events))
                    &&& events.contains(JsonValue::Str("ai_detection"@))
                    &&& events.contains(JsonValue::Str("recording"@))
                    &&& switch ==> events.contains(JsonValue::Str("ai_model_changed"@))
                    &&& c.features.ai.enabled ==> events.contains(JsonValue::Str("alarm"@))
                    &&& events.len() == 2 + (if switch {
                        1int
                    } else {
                        0
                    }) + (if c.features.ai.enabled {
                        1int
                    } else {
                        0
                    })
                }
        }),
{
    let f = capabilities_value(c, r)->Obj_0;
    lemma_says(f, 3);
    lemma_says(f, 7);
    lemma_says(f, 8);
    lemma_says(f, 9);
    lemma_says(f, 10);
    lemma_says(f, 11);
    lemma_says(f, 12);
    lemma_says(f, 13);
    lemma_says(f, 15);
    lemma_says(f, 16);
    lemma_says(f, 17);
    lemma_says(f, 18);
    lemma_says(f, 20);
    let events = super::api::event_names(c, r);
    assert(events[0] == JsonValue::Str("ai_detection"@));
    assert(events[1] == JsonValue::Str("recording"@));
    if r.ai_module && r.ai_loader {
        assert(events[2] == JsonValue::Str("ai_model_changed"@));
    }
    if c.features.ai.enabled {
        assert(events[events.len() - 1] == JsonValue::Str("alarm"@));
    }
}

/// The document of the camera tells its name, its picture and whether anything
/// comes from it.
pub proof fn the_camera_is_told(c: Settings, r: Running)
    ensures
        ({
            let doc = camera_value(c, r);
            &&& says_text(doc, "id"@, "0"@)
            &&& says_text(doc, "name"@, c.device.name)
            &&& r.latest_yuv || r.au_hub ==> says_text(doc, "status"@, "online"@)
            &&& !r.latest_yuv && !r.au_hub ==> says_text(doc, "status"@, "offline"@)
            &&& says_text(doc, "camera_type"@, "csi"@)
            &&& says_text(doc, "resolution"@, resolution_text(c))
            &&& says_number(doc, "fps"@, c.camera.fps as nat)
        }),
{
    let f = camera_value(c, r)->Obj_0;
    lemma_says(f, 0);
    lemma_says(f, 1);
    lemma_says(f, 2);
    lemma_says(f, 3);
    lemma_says(f, 4);
    lemma_says_number(f, 5, c.camera.fps as nat);
}

/// The document about recording tells whether it is on, where the files go, and
/// for how long.
pub proof fn recording_is_told(r: RecordingSettings)
    ensures
        says_whether(recording_value(r), "active"@, r.enabled),
        says_text(recording_value(r), "storage_path"@, r.storage_path),
        says_number(recording_value(r), "segment_secs"@, r.segment_secs as nat),
        says_number(recording_value(r), "retention_days"@, r.retention_days as nat),
{
    let f = recording_value(r)->Obj_0;
    lemma_says(f, 0);
    lemma_says(f, 1);
    lemma_says_number(f, 2, r.segment_secs as nat);
    lemma_says_number(f, 3, r.retention_days as nat);
}

/// The document about detections carries them with the model and the moment;
/// where detection is off it says that alone.
pub proof fn detections_are_told(d: JsonValue, model: Seq<char>, timestamp: u64)
    ensures
        says(detections_value(Some(d), model, timestamp), "detections"@, d),
        says_text(detections_value(Some(d), model, timestamp), "model"@, model),
        says_number(detections_value(Some(d), model, timestamp), "timestamp"@, timestamp as nat),
        says_whether(detections_value(None, model, timestamp), "enabled"@, false),
{
    let f = detections_value(Some(d), model, timestamp)->Obj_0;
    lemma_says(f, 0);
    lemma_says(f, 1);
    lemma_says_number(f, 2, timestamp as nat);
    lemma_says(detections_value(None, model, timestamp)->Obj_0, 0);
}

/// The model that is named is the one that runs, then the one from the start,
/// and else it is unknown.
pub proof fn the_running_model_is_named(running: Seq<char>, start: Option<Seq<char>>, s: Seq<char>)
    ensures
        model_said(Some(running), start) == running,
        model_said(None, Some(s)) == s,
        model_said(None, None) == "unknown"@,
{
}

/// The document about the position gives each of its three numbers under its
/// name.
pub proof fn the_position_is_told(p: Position)
    ensures
        says(ptz_value(p), "pan"@, JsonValue::Num(p.pan.text)),
        says(ptz_value(p), "tilt"@, JsonValue::Num(p.tilt.text)),
        says(ptz_value(p), "zoom"@, JsonValue::Num(p.zoom.text)),
{
    let f = ptz_value(p)->Obj_0;
    lemma_says(f, 0);
    lemma_says(f, 1);
    lemma_says(f, 2);
}

/// The camera moves to what is asked for; what is not asked for goes to the
/// middle, and the zoom to one.
pub proof fn moves_go_where_they_are_asked_to(req: PtzMoveRequest)
    ensures
        req.pan is Some ==> target(req).pan == req.pan->0@,
        req.tilt is Some ==> target(req).tilt == req.tilt->0@,
        req.zoom is Some ==> target(req).zoom == req.zoom->0@,
        req.pan is None ==> target(req).pan == (RealValue {
            bits: 0x3fe0_0000_0000_0000,
            text: "0.5"@,
        }),
        req.tilt is None ==> target(req).tilt == (RealValue {
            bits: 0x3fe0_0000_0000_0000,
            text: "0.5"@,
        }),
        req.zoom is None ==> target(req).zoom == (RealValue {
            bits: 0x3ff0_0000_0000_0000,
            text: "1.0"@,
        }),
{
}

/// The document of a model tells its name, its family, its input, where it is
/// from and whether its file is there.
pub proof fn models_are_told(id: Seq<char>, m: Model, source: Seq<char>, available: bool)
    ensures
        ({
            let doc = model_value(id, m, source, available);
            &&& says_text(doc, "id"@, id)
            &&& says_text(doc, "family"@, m.family)
            &&& says_number(doc, "input"@, m.input as nat)
            &&& says_text(doc, "source"@, source)
            &&& says_whether(doc, "available"@, available)
        }),
{
    let f = model_value(id, m, source, available)->Obj_0;
    lemma_says(f, 0);
    lemma_says(f, 1);
    lemma_says_number(f, 2, m.input as nat);
    lemma_says(f, 3);
    lemma_says(f, 4);
}

/// The list of models has every model of the registry in its order, each under
/// its own name, and behind them the one that the configuration names by its
/// file, if it does.
pub proof fn every_model_is_listed(
    active: Seq<char>,
    models: Seq<Listed>,
    resolved: Option<Listed>,
    upload: Option<UploadLimits>,
    i: int,
)
    requires
        0 <= i < models.len(),
    ensures
        ({
            let doc = models_value(active, models, resolved, upload);
            let custom = resolved is Some && resolved->0.spec.source@ == "custom"@;
            &&& says_text(doc, "active"@, active)
            &&& exists|list: Seq<JsonValue>|
                {
                    &&& #[trigger] says(doc, "models"@, JsonValue::Arr(list))
                    &&& list.len() == models.len() + (if custom {
                        1int
                    } else {
                        0
                    })
                    &&& says_text(list[i], "id"@, models[i].spec.id@)
                    &&& says_text(list[i], "family"@, models[i].spec.family@)
                    &&& says_number(list[i], "input"@, models[i].spec.input as nat)
                    &&& says_text(list[i], "source"@, models[i].spec.source@)
                    &&& says_whether(list[i], "available"@, models[i].available)
                    &&& custom ==> says_text(list.last(), "id"@, "custom"@) && says_whether(
                        list.last(),
                        "available"@,
                        resolved->0.available,
                    ) && says_text(list.last(), "family"@, resolved->0.spec.family@)
                }
            &&& upload is Some ==> says(doc, "upload"@, limits_value(upload->0))
        }),
{
    let doc = models_value(active, models, resolved, upload);
    let f = doc->Obj_0;
    lemma_says(f, 0);
    lemma_says(f, 1);
    let list = entries(models) + custom_entry(resolved);
    let l = models[i];
    assert(list[i] == entry(l));
    models_are_told(l.spec@.id, l.spec@, l.spec@.source, l.available);
    if resolved is Some && resolved->0.spec.source@ == "custom"@ {
        let c = resolved->0;
        models_are_told("custom"@, c.spec@, "custom"@, c.available);
    }
    if upload is Some {
        lemma_says(f, 2);
    }
    assert(says(doc, "models"@, JsonValue::Arr(list)));
}

/// What may be uploaded is told: whether anything, and how much.
pub proof fn limits_are_told(u: UploadLimits)
    ensures
        says_whether(limits_value(u), "allowed"@, u.allowed),
        says_number(limits_value(u), "max_bytes"@, u.max_bytes as nat),
{
    let f = limits_value(u)->Obj_0;
    lemma_says(f, 0);
    lemma_says_number(f, 1, u.max_bytes as nat);
}

/// A field or an item that is added to a document is found in it, behind those
/// that were there.
pub proof fn what_is_added_is_found(f: Fields, items: Seq<JsonValue>, name: Seq<char>, v: JsonValue)
    ensures
        says(with_field(JsonValue::Obj(f), name, v), name, v),
        with_field(JsonValue::Obj(f), name, v)->Obj_0.drop_last() == f,
        with_item(JsonValue::Arr(items), v)->Arr_0.last() == v,
        with_item(JsonValue::Arr(items), v)->Arr_0.drop_last() == items,
{
    let g = f.push((name, v));
    lemma_says(g, f.len() as int);
    assert(g.drop_last() =~= f);
    assert(items.push(v).drop_last() =~= items);
}

} // verus!
