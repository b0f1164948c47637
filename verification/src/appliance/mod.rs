//! Appliances: what a device controls by infrared.

pub mod aircon;
pub mod common;
pub mod light;
pub mod smart_meter;
pub mod tv;

use crate::appliance::aircon::{AirCon, AirConParams};
use crate::appliance::common::Signal;
use crate::appliance::light::Light;
use crate::appliance::smart_meter::SmartMeter;
use crate::appliance::tv::TV;
use crate::client::{request_of, Client, Method, Request};
use crate::device::DeviceCore;
use crate::order::lemma_ascii_key_before;
use crate::params::{
    entry_if_set, lemma_extend_before, lemma_extend_ordered, lemma_ordered_entries_unique,
    mapping, set_if, strictly_ordered, Params,
};
use crate::reply::{
    is_lenient_result, read_lenient, read_strict, strict_result, ApiError, Listing, Reply,
};
use vstd::prelude::*;
use vstd::string::*;

verus! {

/// An appliance. `app_type` says of which kind it is; the service fills the
/// field of that kind (`aircon`, `tv`, `light` or `smart_meter`) and leaves the
/// others out. Nothing here relies on that: any of them may be set or missing,
/// and a kind that is not known is kept as it came.
#[derive(Clone, PartialEq, Eq, Debug)]
pub struct Appliance {
    pub id: String,
    pub device: DeviceCore,
    /// Missing where the appliance is in no catalogue.
    pub model: Option<ApplianceModel>,
    pub nickname: String,
    pub image: String,
    /// The service's field `type`.
    pub app_type: String,
    pub settings: Option<AirConParams>,
    pub aircon: Option<AirCon>,
    pub signals: Vec<Signal>,
    pub tv: Option<TV>,
    pub light: Option<Light>,
    pub smart_meter: Option<SmartMeter>,
}

/// A kind of remote control in the vendor's catalogue.
#[derive(Clone, PartialEq, Eq, Debug)]
pub struct ApplianceModel {
    pub id: String,
    pub manufacturer: String,
    pub remote_name: String,
    pub name: String,
    pub image: String,
    pub country: String,
    pub series: Option<String>,
}

/// The text of a string slice that may be missing.
pub open spec fn text_of_str(value: Option<&str>) -> Option<Seq<char>> {
    match value {
        Some(s) => Some(s@),
        None => None,
    }
}

/// The path of the signals of an appliance.
pub open spec fn signals_path(appliance_id: Seq<char>) -> Seq<char> {
    "/appliances/"@ + appliance_id + "/signals"@
}

/// The parameters that create an appliance, in the order of their names:
/// always `device`, `image` and `nickname`; `model` and `model_type` where
/// they are given.
pub open spec fn creation_entries(
    nickname: Seq<char>,
    model: Option<Seq<char>>,
    model_type: Option<Seq<char>>,
    device: Seq<char>,
    image: Seq<char>,
) -> Seq<(Seq<char>, Seq<char>)> {
    seq![("device"@, device), ("image"@, image)] + entry_if_set("model"@, model) + entry_if_set(
        "model_type"@,
        model_type,
    ) + seq![("nickname"@, nickname)]
}

/// The parameters that create an appliance are in the order of their keys,
/// and stand for the mapping of each name to its value.
proof fn lemma_creation_entries(
    nickname: Seq<char>,
    model: Option<Seq<char>>,
    model_type: Option<Seq<char>>,
    device: Seq<char>,
    image: Seq<char>,
)
    ensures
        strictly_ordered(creation_entries(nickname, model, model_type, device, image)),
        mapping(creation_entries(nickname, model, model_type, device, image)) == set_if(
            set_if(
                Map::empty().insert("device"@, device).insert("image"@, image),
                "model"@,
                model,
            ),
            "model_type"@,
            model_type,
        ).insert("nickname"@, nickname),
{
    reveal_strlit("device");
    reveal_strlit("image");
    reveal_strlit("model");
    reveal_strlit("model_type");
    reveal_strlit("nickname");
    lemma_ascii_key_before("device"@, "image"@, 0);
    lemma_ascii_key_before("image"@, "model"@, 0);
    lemma_ascii_key_before("model"@, "model_type"@, 5);
    lemma_ascii_key_before("model_type"@, "nickname"@, 0);
    let none = Seq::<(Seq<char>, Seq<char>)>::empty();
    let a = none + entry_if_set("device"@, Some(device));
    let b = a + entry_if_set("image"@, Some(image));
    let c = b + entry_if_set("model"@, model);
    let d = c + entry_if_set("model_type"@, model_type);
    let e = d + entry_if_set("nickname"@, Some(nickname));
    lemma_extend_ordered(none, "device"@, Some(device));
    lemma_extend_before(none, "device"@, Some(device), "image"@);
    lemma_extend_ordered(a, "image"@, Some(image));
    lemma_extend_before(a, "image"@, Some(image), "model"@);
    lemma_extend_ordered(b, "model"@, model);
    lemma_extend_before(b, "model"@, model, "model_type"@);
    lemma_extend_ordered(c, "model_type"@, model_type);
    lemma_extend_before(c, "model_type"@, model_type, "nickname"@);
    lemma_extend_ordered(d, "nickname"@, Some(nickname));
    assert(b =~= seq![("device"@, device), ("image"@, image)]);
    assert(e =~= creation_entries(nickname, model, model_type, device, image));
}

impl Client {
    /// The request for the appliances of the user.
    pub fn get_appliances(&self) -> (r: Request)
        ensures
            r@ == request_of(self.token(), Method::Get, "/appliances"@, Seq::empty()),
    {
        self.request(Method::Get, "/appliances", &Params::new())
    }

    /// The request for the signals stored for an appliance.
    pub fn get_appliance_signals(&self, appliance_id: &str) -> (r: Request)
        ensures
            r@ == request_of(
                self.token(),
                Method::Get,
                signals_path(appliance_id@),
                Seq::empty(),
            ),
    {
        let mut path = "/appliances/".to_owned();
        path.append(appliance_id);
        path.append("/signals");
        self.request(Method::Get, path.as_str(), &Params::new())
    }

    /// The request that creates an appliance on `device`. `model` and
    /// `model_type` are sent only where they are given.
    pub fn create_appliance(
        &self,
        nickname: &str,
        model: Option<&str>,
        model_type: Option<&str>,
        device: &str,
        image: &str,
    ) -> (r: Request)
        ensures
            r@ == request_of(
                self.token(),
                Method::Post,
                "/appliances"@,
                creation_entries(
                    nickname@,
                    text_of_str(model),
                    text_of_str(model_type),
                    device@,
                    image@,
                ),
            ),
    {
        let mut params = Params::new();
        params.insert("nickname", nickname);
        params.insert("device", device);
        params.insert("image", image);
        match model {
            Some(model) => {
                params.insert("model", model);
            },
            None => {},
        }
        match model_type {
            Some(model_type) => {
                params.insert("model_type", model_type);
            },
            None => {},
        }
        proof {
            let entries = creation_entries(
                nickname@,
                text_of_str(model),
                text_of_str(model_type),
                device@,
                image@,
            );
            reveal_strlit("device");
            reveal_strlit("image");
            reveal_strlit("model");
            reveal_strlit("model_type");
            reveal_strlit("nickname");
            lemma_creation_entries(
                nickname@,
                text_of_str(model),
                text_of_str(model_type),
                device@,
                image@,
            );
            assert(mapping(params@) =~= mapping(entries));
            lemma_ordered_entries_unique(params@, entries);
        }
        self.request(Method::Post, "/appliances", &params)
    }
}

/// Reads the reply to [`Client::get_appliances`]. A body that is no list of
/// appliances gives an empty list, with the decode failure beside it.
pub fn read_appliances(reply: Reply<Vec<Appliance>>) -> (r: Result<Listing<Appliance>, ApiError>)
    ensures
        is_lenient_result(reply, r),
        !(r matches Err(ApiError::Decode(_))),
{
    read_lenient(reply)
}

/// Reads the reply to [`Client::get_appliance_signals`]. A body that is no
/// list of signals gives an empty list, with the decode failure beside it.
pub fn read_appliance_signals(reply: Reply<Vec<Signal>>) -> (r: Result<Listing<Signal>, ApiError>)
    ensures
        is_lenient_result(reply, r),
        !(r matches Err(ApiError::Decode(_))),
{
    read_lenient(reply)
}

/// Reads the reply to [`Client::create_appliance`]. A body that is no
/// appliance is an error.
pub fn read_created_appliance(reply: Reply<Appliance>) -> (r: Result<Appliance, ApiError>)
    ensures
        r == strict_result(reply),
{
    read_strict(reply)
}

} // verus!
