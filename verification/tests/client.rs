use remo_client_rs::{Client, Header, Method, Params, Request, BASE_URL};

fn header(name: &str, value: &str) -> Header {
    Header { name: name.to_string(), value: value.to_string() }
}

fn get(url: &str, token: &str) -> Request {
    Request {
        method: Method::Get,
        url: url.to_string(),
        headers: vec![
            header("Authorization", &format!("Bearer {}", token)),
            header("Accept", "application/json"),
        ],
        body: String::new(),
    }
}

#[test]
fn base_url_does_not_end_in_a_slash() {
    assert_eq!(BASE_URL, "https://api.nature.global/1");
    assert!(!BASE_URL.ends_with('/'));
}

#[test]
fn request_without_params_has_no_body_and_no_content_type() {
    let client = Client::new("secret");
    let request = client.request(Method::Get, "/users/me", &Params::new());
    assert_eq!(request, get("https://api.nature.global/1/users/me", "secret"));
    assert_eq!(request.headers.len(), 2);
    assert!(request.headers.iter().all(|h| h.name != "Content-Type"));
    assert_eq!(request.body, "");
}

#[test]
fn request_with_params_has_a_form_body() {
    let client = Client::new("secret");
    let mut params = Params::new();
    params.insert("nickname", "living room");
    params.insert("device", "d1");
    let request = client.request(Method::Post, "/appliances", &params);
    assert_eq!(request.method, Method::Post);
    assert_eq!(request.url, "https://api.nature.global/1/appliances");
    assert_eq!(
        request.headers,
        vec![
            header("Authorization", "Bearer secret"),
            header("Accept", "application/json"),
            header("Content-Type", "application/x-www-form-urlencoded"),
        ]
    );
    assert_eq!(request.body, "device=d1&nickname=living%20room");
}

#[test]
fn request_joins_base_and_path_with_one_slash() {
    let client = Client::new("t");
    let request = client.request(Method::Get, "/devices", &Params::new());
    assert_eq!(request.url, "https://api.nature.global/1/devices");
    assert!(!request.url["https://".len()..].contains("//"));
}

#[test]
fn request_carries_the_token_as_it_is() {
    let client = Client::new("abc.DEF-123_xyz");
    let request = client.request(Method::Get, "/users/me", &Params::new());
    assert_eq!(request.headers[0], header("Authorization", "Bearer abc.DEF-123_xyz"));
    let empty = Client::new("");
    let request = empty.request(Method::Get, "/users/me", &Params::new());
    assert_eq!(request.headers[0], header("Authorization", "Bearer "));
}

#[test]
fn request_keeps_the_method() {
    let client = Client::new("t");
    assert_eq!(client.request(Method::Get, "/x", &Params::new()).method, Method::Get);
    assert_eq!(client.request(Method::Post, "/x", &Params::new()).method, Method::Post);
}

#[test]
fn get_user_asks_for_the_user() {
    assert_eq!(Client::new("tok").get_user(), get("https://api.nature.global/1/users/me", "tok"));
}

#[test]
fn get_devices_asks_for_the_devices() {
    assert_eq!(Client::new("tok").get_devices(), get("https://api.nature.global/1/devices", "tok"));
}

#[test]
fn get_appliances_asks_for_the_appliances() {
    assert_eq!(
        Client::new("tok").get_appliances(),
        get("https://api.nature.global/1/appliances", "tok")
    );
}

#[test]
fn get_appliance_signals_names_the_appliance_in_the_path() {
    assert_eq!(
        Client::new("tok").get_appliance_signals("app-42"),
        get("https://api.nature.global/1/appliances/app-42/signals", "tok")
    );
}

#[test]
fn building_a_request_twice_gives_the_same_request() {
    let client = Client::new("tok");
    assert_eq!(client.get_user(), client.get_user());
    assert_eq!(client.get_appliance_signals("a"), client.get_appliance_signals("a"));
}
