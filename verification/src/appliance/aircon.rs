//! Air conditioners: their settings, what they can be set to, and how one is
//! recognised from a captured infrared signal.

use crate::appliance::ApplianceModel;
use crate::client::{request_of, Client, Method, Request};
use crate::order::lemma_ascii_key_before;
use crate::params::{
    entry_if_set, has_key, lemma_extend_before, lemma_extend_ordered, lemma_mapping_keys,
    lemma_ordered_entries_unique, mapping, set_if, strictly_ordered, Params,
};
use crate::reply::{
    read_status, read_strict, status_result, strict_result, ApiError, Reply, Response,
    TransportError,
};
use crate::util::{encoded_params, lemma_unreserved_unchanged, percent_encoded};
use vstd::prelude::*;
use vstd::string::*;

verus! {

/// The settings of an air conditioner. Read from the service, every field is
/// set. Sent to it, only the fields that are set change.
#[derive(Clone, PartialEq, Eq, Debug)]
pub struct AirConParams {
    pub temp: Option<String>,
    pub mode: Option<String>,
    pub vol: Option<String>,
    pub dir: Option<String>,
    pub button: Option<String>,
}

/// What an air conditioner can be set to.
#[derive(Clone, PartialEq, Eq, Debug)]
pub struct AirCon {
    pub range: Range,
    pub temp_unit: String,
}

/// The modes of an air conditioner and its buttons without a setting.
#[derive(Clone, PartialEq, Eq, Debug)]
pub struct Range {
    pub modes: Modes,
    pub fixed_buttons: Vec<String>,
}

/// The settings allowed in each mode. A mode that the unit lacks is `None`.
#[derive(Clone, PartialEq, Eq, Debug)]
pub struct Modes {
    pub cool: Option<AirConRangeMode>,
    pub warm: Option<AirConRangeMode>,
    pub dry: Option<AirConRangeMode>,
    pub blow: Option<AirConRangeMode>,
    pub auto: Option<AirConRangeMode>,
}

/// The values that each setting can take in one mode, as the vendor lists
/// them.
#[derive(Clone, PartialEq, Eq, Debug)]
pub struct AirConRangeMode {
    pub temp: Vec<String>,
    pub vol: Vec<String>,
    pub dir: Vec<String>,
    /// The horizontal direction.
    pub dirh: Vec<String>,
}

/// A captured infrared signal: its frequency and the timing of its pulses.
#[derive(Clone, PartialEq, Eq, Debug)]
pub struct InfraredMessage {
    pub freq: u64,
    pub data: Vec<u64>,
    pub format: String,
}

/// The model that a captured signal belongs to, and the settings that the
/// signal carries.
#[derive(Clone, PartialEq, Eq, Debug)]
pub struct ApplianceModelAndParam {
    pub model: ApplianceModel,
    pub params: AirConParams,
}

/// The text of a string that may be missing.
pub open spec fn text_of(value: Option<String>) -> Option<Seq<char>> {
    match value {
        Some(s) => Some(s@),
        None => None,
    }
}

/// The parameters that change the settings of an air conditioner: one for
/// each field that is set, under the service's name for it, in the order of
/// those names. A field that is not set has no parameter.
pub open spec fn settings_entries(settings: AirConParams) -> Seq<(Seq<char>, Seq<char>)> {
    entry_if_set("air_direction"@, text_of(settings.dir)) + entry_if_set(
        "air_volume"@,
        text_of(settings.vol),
    ) + entry_if_set("button"@, text_of(settings.button)) + entry_if_set(
        "operation_mode"@,
        text_of(settings.mode),
    ) + entry_if_set("temperature"@, text_of(settings.temp))
}

/// The path under which the settings of an air conditioner are changed.
pub open spec fn settings_path(appliance_id: Seq<char>) -> Seq<char> {
    "/appliances/"@ + appliance_id + "/aircon_settings"@
}

/// The one parameter of a detection request: the captured signal as JSON text.
pub open spec fn detection_entries(message: Seq<char>) -> Seq<(Seq<char>, Seq<char>)> {
    seq![("message"@, message)]
}

/// The parameters of a settings change are in the order of their keys, and
/// stand for the mapping of each set field's name to its value.
proof fn lemma_settings_entries(settings: AirConParams)
    ensures
        strictly_ordered(settings_entries(settings)),
        mapping(settings_entries(settings)) == set_if(
            set_if(
                set_if(
                    set_if(
                        set_if(Map::empty(), "air_direction"@, text_of(settings.dir)),
                        "air_volume"@,
                        text_of(settings.vol),
                    ),
                    "button"@,
                    text_of(settings.button),
                ),
                "operation_mode"@,
                text_of(settings.mode),
            ),
            "temperature"@,
            text_of(settings.temp),
        ),
{
    reveal_strlit("air_direction");
    reveal_strlit("air_volume");
    reveal_strlit("button");
    reveal_strlit("operation_mode");
    reveal_strlit("temperature");
    lemma_ascii_key_before("air_direction"@, "air_volume"@, 4);
    lemma_ascii_key_before("air_volume"@, "button"@, 0);
    lemma_ascii_key_before("button"@, "operation_mode"@, 0);
    lemma_ascii_key_before("operation_mode"@, "temperature"@, 0);
    let none = Seq::<(Seq<char>, Seq<char>)>::empty();
    let dir = none + entry_if_set("air_direction"@, text_of(settings.dir));
    let vol = dir + entry_if_set("air_volume"@, text_of(settings.vol));
    let button = vol + entry_if_set("button"@, text_of(settings.button));
    let mode = button + entry_if_set("operation_mode"@, text_of(settings.mode));
    let temp = mode + entry_if_set("temperature"@, text_of(settings.temp));
    lemma_extend_ordered(none, "air_direction"@, text_of(settings.dir));
    lemma_extend_before(none, "air_direction"@, text_of(settings.dir), "air_volume"@);
    lemma_extend_ordered(dir, "air_volume"@, text_of(settings.vol));
    lemma_extend_before(dir, "air_volume"@, text_of(settings.vol), "button"@);
    lemma_extend_ordered(vol, "button"@, text_of(settings.button));
    lemma_extend_before(vol, "button"@, text_of(settings.button), "operation_mode"@);
    lemma_extend_ordered(button, "operation_mode"@, text_of(settings.mode));
    lemma_extend_before(button, "operation_mode"@, text_of(settings.mode), "temperature"@);
    lemma_extend_ordered(mode, "temperature"@, text_of(settings.temp));
    assert(dir =~= entry_if_set("air_direction"@, text_of(settings.dir)));
    assert(temp == settings_entries(settings));
}

/// A settings change names a field exactly where the field is set, and names
/// nothing else: a field that is not set is left out, not sent empty.
pub proof fn lemma_unset_fields_left_out(settings: AirConParams)
    ensures
        has_key(settings_entries(settings), "temperature"@) <==> settings.temp is Some,
        has_key(settings_entries(settings), "operation_mode"@) <==> settings.mode is Some,
        has_key(settings_entries(settings), "air_volume"@) <==> settings.vol is Some,
        has_key(settings_entries(settings), "air_direction"@) <==> settings.dir is Some,
        has_key(settings_entries(settings), "button"@) <==> settings.button is Some,
        forall|key: Seq<char>| #[trigger]
            has_key(settings_entries(settings), key) ==> key == "temperature"@ || key
                == "operation_mode"@ || key == "air_volume"@ || key == "air_direction"@ || key
                == "button"@,
{
    let entries = settings_entries(settings);
    reveal_strlit("air_direction");
    reveal_strlit("air_volume");
    reveal_strlit("button");
    reveal_strlit("operation_mode");
    reveal_strlit("temperature");
    assert("air_direction"@.len() == 13 && "air_volume"@.len() == 10);
    assert("button"@.len() == 6 && "operation_mode"@.len() == 14);
    assert("temperature"@.len() == 11);
    lemma_settings_entries(settings);
    lemma_mapping_keys(entries, "temperature"@);
    lemma_mapping_keys(entries, "operation_mode"@);
    lemma_mapping_keys(entries, "air_volume"@);
    lemma_mapping_keys(entries, "air_direction"@);
    lemma_mapping_keys(entries, "button"@);
    assert forall|key: Seq<char>| #[trigger] has_key(entries, key) implies key == "temperature"@
        || key == "operation_mode"@ || key == "air_volume"@ || key == "air_direction"@ || key
        == "button"@ by {
        lemma_mapping_keys(entries, key);
    }
}

/// With the mode alone set, the body of a settings change is the one
/// parameter `operation_mode`; with nothing set, it is empty.
pub proof fn lemma_mode_alone(settings: AirConParams)
    requires
        settings.temp is None,
        settings.vol is None,
        settings.dir is None,
        settings.button is None,
    ensures
        settings.mode matches Some(mode) ==> encoded_params(settings_entries(settings))
            == "operation_mode"@ + seq!['='] + percent_encoded(mode@),
        settings.mode is None ==> encoded_params(settings_entries(settings)) == Seq::<
            char,
        >::empty(),
{
    match settings.mode {
        Some(mode) => {
            assert(settings_entries(settings) =~= seq![("operation_mode"@, mode@)]);
            reveal_strlit("operation_mode");
            lemma_unreserved_unchanged("operation_mode"@);
        },
        None => {
            assert(settings_entries(settings) =~= Seq::empty());
        },
    }
}

impl Client {
    /// The request that asks which air conditioner a captured signal belongs
    /// to. `message` is the signal as JSON text; it travels as the one
    /// parameter `message` of the form body.
    pub fn detect_appliance(&self, message: &str) -> (r: Request)
        ensures
            r@ == request_of(
                self.token(),
                Method::Post,
                "/detectappliance"@,
                detection_entries(message@),
            ),
    {
        let mut params = Params::new();
        params.insert("message", message);
        proof {
            let none = Seq::<(Seq<char>, Seq<char>)>::empty();
            lemma_extend_ordered(none, "message"@, Some(message@));
            assert(none + entry_if_set("message"@, Some(message@)) =~= detection_entries(
                message@,
            ));
            lemma_ordered_entries_unique(params@, detection_entries(message@));
        }
        self.request(Method::Post, "/detectappliance", &params)
    }

    /// The request that changes the settings of an air conditioner. Only the
    /// fields of `ac_params` that are set are sent; with none set the body is
    /// empty.
    pub fn update_air_con_settings(&self, appliance_id: &str, ac_params: &AirConParams) -> (r:
        Request)
        ensures
            r@ == request_of(
                self.token(),
                Method::Post,
                settings_path(appliance_id@),
                settings_entries(*ac_params),
            ),
    {
        let mut params = Params::new();
        let ghost none = mapping(params@);
        match &ac_params.temp {
            Some(temp) => {
                params.insert("temperature", temp.as_str());
            },
            None => {},
        }
        let ghost temp = mapping(params@);
        assert(temp == set_if(none, "temperature"@, text_of(ac_params.temp)));
        match &ac_params.mode {
            Some(mode) => {
                params.insert("operation_mode", mode.as_str());
            },
            None => {},
        }
        let ghost mode = mapping(params@);
        assert(mode == set_if(temp, "operation_mode"@, text_of(ac_params.mode)));
        match &ac_params.vol {
            Some(vol) => {
                params.insert("air_volume", vol.as_str());
            },
            None => {},
        }
        let ghost vol = mapping(params@);
        assert(vol == set_if(mode, "air_volume"@, text_of(ac_params.vol)));
        match &ac_params.dir {
            Some(dir) => {
                params.insert("air_direction", dir.as_str());
            },
            None => {},
        }
        let ghost dir = mapping(params@);
        assert(dir == set_if(vol, "air_direction"@, text_of(ac_params.dir)));
        match &ac_params.button {
            Some(button) => {
                params.insert("button", button.as_str());
            },
            None => {},
        }
        proof {
            assert(mapping(params@) == set_if(dir, "button"@, text_of(ac_params.button)));
            reveal_strlit("air_direction");
            reveal_strlit("air_volume");
            reveal_strlit("button");
            reveal_strlit("operation_mode");
            reveal_strlit("temperature");
            lemma_settings_entries(*ac_params);
            assert("air_direction"@.len() == 13 && "air_volume"@.len() == 10);
            assert("button"@.len() == 6 && "operation_mode"@.len() == 14);
            assert("temperature"@.len() == 11);
            assert(mapping(params@) =~= mapping(settings_entries(*ac_params)));
            lemma_ordered_entries_unique(params@, settings_entries(*ac_params));
        }
        let mut path = "/appliances/".to_owned();
        path.append(appliance_id);
        path.append("/aircon_settings");
        self.request(Method::Post, path.as_str(), &params)
    }
}

/// Reads the reply to [`Client::detect_appliance`]. A body that is no model
/// with settings is an error.
pub fn read_detected_appliance(reply: Reply<ApplianceModelAndParam>) -> (r: Result<
    ApplianceModelAndParam,
    ApiError,
>)
    ensures
        r == strict_result(reply),
{
    read_strict(reply)
}

/// Reads the reply to [`Client::update_air_con_settings`]: success for a
/// status from 200 to 299, whatever the body holds; the status as an error
/// otherwise.
pub fn read_settings_update(reply: Result<Response, TransportError>) -> (r: Result<(), ApiError>)
    ensures
        r == status_result(reply),
{
    read_status(reply)
}

} // verus!
