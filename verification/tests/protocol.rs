//! The wire protocol: what is written is read back, and what is malformed is refused.

use mural::big::Big;
use mural::binary64::spell;
use mural::error::ProtocolError;
use mural::json::{parse_json, JsonValue, MAX_JSON_NESTING_DEPTH};
use mural::paths::fallback_socket_path_for_uid;
use mural::protocol::{
    default_overview_scale, CacheAction, CacheBackend, CacheWarmScope, CanvasMode, CanvasPanAxis,
    CanvasTileCount, CanvasWalk, DaemonMode, Easing, PushDirection, PushMode, ScaleMode, Transition,
    TransitionClass, WallpaperAction, CAPABILITIES_SCHEMA_VERSION, DEFAULT_CANVAS_IN_MS,
    DEFAULT_CANVAS_OUT_MS, DEFAULT_CANVAS_PAN_MS, DEFAULT_DURATION_MS,
};
use mural::registry::{transition_descriptor, transition_registry};
use mural::request::{
    parse_public_request, parse_request, CacheRequest, ClearRequest, PreloadRequest,
    RenderCanvasSetRequest, RenderWorldSetRequest, Request, SetRequest, WallpaperRequest,
    WorldRouteFocus,
};
use mural::response::{
    parse_capabilities_response, parse_health_response, parse_wallpaper_response,
    response_error_message, response_is_error, CacheResponse, CapabilitiesResponse, HealthOutput,
    HealthResponse, OutputState, QueryResponse, Response, TransitionParameterValue,
    TransitionState, WallpaperEntry, WallpaperResponse,
};
use mural::scale::OverviewScale;
use mural::textmap::TextMap;

fn map_of<V>(entries: Vec<(String, V)>) -> TextMap<V> {
    let mut map = TextMap::new();
    for (key, value) in entries {
        map.insert(key, value);
    }
    map
}

fn scale(value: f32) -> OverviewScale {
    OverviewScale::from_bits(value.to_bits()).expect("a scale between zero and one")
}

fn nested_array(depth: usize) -> String {
    format!("{}null{}", "[".repeat(depth), "]".repeat(depth))
}

#[test]
fn accepts_json_at_maximum_nesting_depth() {
    assert!(parse_json(&nested_array(MAX_JSON_NESTING_DEPTH)).is_ok());
}

#[test]
fn rejects_json_beyond_maximum_nesting_depth() {
    let error = parse_json(&nested_array(MAX_JSON_NESTING_DEPTH + 1)).unwrap_err();

    assert_eq!(
        error.to_text(),
        format!("JSON nesting exceeds the maximum depth of {MAX_JSON_NESTING_DEPTH}")
    );
}


#[test]
fn request_round_trip_for_set_push() {
    let request = Request::SetOutputs(SetRequest {
        outputs: map_of(vec![("DP-1".to_owned(), "/tmp/wall.jpg".to_owned())]),
        transition: Transition::Push {
            direction: PushDirection::Up,
            duration_ms: 900,
            easing: Easing::EaseOutCubic,
            mode: PushMode::Portal,
        },
        scale_mode: ScaleMode::Fill,
        allow_partial: false,
    });

    assert_eq!(parse_request(&request.to_json()).unwrap(), request);
}

#[test]
fn documented_set_request_shape_stays_compatible() {
    let request = parse_request(
        r#"{
          "type": "set",
          "outputs": {
            "DP-1": "/home/user/a.jpg",
            "DP-2": "/home/user/b.jpg"
          },
          "transition": {
            "type": "push",
            "direction": "up",
            "duration_ms": 900,
            "easing": "ease-out-cubic",
            "mode": "portal"
          },
          "scale_mode": "fill",
          "allow_partial": false
        }"#,
    )
    .unwrap();

    assert_eq!(
        request,
        Request::SetOutputs(SetRequest {
            outputs: map_of(vec![
                ("DP-1".to_owned(), "/home/user/a.jpg".to_owned()),
                ("DP-2".to_owned(), "/home/user/b.jpg".to_owned()),
            ]),
            transition: Transition::Push {
                direction: PushDirection::Up,
                duration_ms: 900,
                easing: Easing::EaseOutCubic,
                mode: PushMode::Portal,
            },
            scale_mode: ScaleMode::Fill,
            allow_partial: false,
        })
    );
}

#[test]
fn documented_canvas_transition_shape_stays_compatible() {
    let request = parse_request(
        r#"{
          "type": "set",
          "outputs": {"DP-1": "/home/user/a.jpg"},
          "transition": {
            "type": "canvas",
            "zoom_out_ms": 180,
            "pan_ms": 80,
            "zoom_in_ms": 260,
            "easing": "ease-out-cubic",
            "mode": "clipped",
            "walk": "paged",
            "pan_axis": "auto",
            "overview_scale": 0.333333,
            "tile_count": "auto",
            "max_tile_count": 48
          }
        }"#,
    )
    .unwrap();

    assert_eq!(
        request,
        Request::SetOutputs(SetRequest {
            outputs: map_of(vec![("DP-1".to_owned(), "/home/user/a.jpg".to_owned())]),
            transition: Transition::Canvas {
                zoom_out_ms: 180,
                pan_ms: 80,
                zoom_in_ms: 260,
                easing: Easing::EaseOutCubic,
                mode: CanvasMode::Clipped,
                walk: CanvasWalk::Paged,
                pan_axis: CanvasPanAxis::Auto,
                overview_scale: scale(0.333_333),
                tile_count: CanvasTileCount::Auto { max: Some(48) },
            },
            scale_mode: ScaleMode::Fill,
            allow_partial: false,
        })
    );
}

#[test]
fn animated_transition_timings_must_be_positive() {
    for (transition, field) in [
        (r#"{"type":"fade","duration_ms":0}"#, "duration_ms"),
        (
            r#"{"type":"push","direction":"left","duration_ms":0}"#,
            "duration_ms",
        ),
        (r#"{"type":"world","duration_ms":0}"#, "duration_ms"),
        (r#"{"type":"canvas","zoom_out_ms":0}"#, "zoom_out_ms"),
        (r#"{"type":"canvas","pan_ms":0}"#, "pan_ms"),
        (r#"{"type":"canvas","zoom_in_ms":0}"#, "zoom_in_ms"),
    ] {
        let error = parse_request(&format!(
            r#"{{"type":"set","outputs":{{"DP-1":"/tmp/a.jpg"}},"transition":{transition}}}"#
        ))
        .unwrap_err();

        assert_eq!(
            error.message(),
            format!("field '{field}' must be greater than zero")
        );
    }

    assert_eq!(
        Transition::parse_cli_token("fade", 0, Easing::Linear)
            .unwrap_err()
            .message(),
        "field 'duration_ms' must be greater than zero"
    );
}

#[test]
fn compact_transition_token_is_accepted() {
    let request = parse_request(
        r#"{
            "type":"set",
            "outputs":{"DP-1":"/tmp/a.jpg"},
            "transition":"push:left",
            "scale_mode":"fit"
        }"#,
    )
    .unwrap();

    assert_eq!(
        request,
        Request::SetOutputs(SetRequest {
            outputs: map_of(vec![("DP-1".to_owned(), "/tmp/a.jpg".to_owned())]),
            transition: Transition::Push {
                direction: PushDirection::Left,
                duration_ms: DEFAULT_DURATION_MS,
                easing: Easing::EaseOutCubic,
                mode: PushMode::Portal,
            },
            scale_mode: ScaleMode::Fit,
            allow_partial: false,
        })
    );
}

#[test]
fn compact_world_transition_token_is_accepted() {
    let request = parse_request(
        r#"{
            "type":"wallpaper",
            "action":"next",
            "transition":"world"
        }"#,
    )
    .unwrap();

    assert_eq!(
        request,
        Request::Wallpaper(WallpaperRequest {
            action: WallpaperAction::Next,
            transition: Some(Transition::World {
                duration_ms: DEFAULT_DURATION_MS,
                easing: Easing::EaseOutCubic,
            }),
            scale_mode: None,
        })
    );
}

#[test]
fn world_transition_round_trips() {
    let request = Request::Wallpaper(WallpaperRequest {
        action: WallpaperAction::Next,
        transition: Some(Transition::World {
            duration_ms: 1400,
            easing: Easing::EaseInOutCubic,
        }),
        scale_mode: Some(ScaleMode::Fill),
    });

    assert_eq!(parse_request(&request.to_json()).unwrap(), request);
}

#[test]
fn explicit_push_mode_is_parsed() {
    let request = parse_request(
        r#"{
            "type":"set",
            "outputs":{"DP-1":"/tmp/a.jpg"},
            "transition":{
                "type":"push",
                "direction":"right",
                "mode":"screen"
            }
        }"#,
    )
    .unwrap();

    assert_eq!(
        request,
        Request::SetOutputs(SetRequest {
            outputs: map_of(vec![("DP-1".to_owned(), "/tmp/a.jpg".to_owned())]),
            transition: Transition::Push {
                direction: PushDirection::Right,
                duration_ms: DEFAULT_DURATION_MS,
                easing: Easing::EaseOutCubic,
                mode: PushMode::Screen,
            },
            scale_mode: ScaleMode::Fill,
            allow_partial: false,
        })
    );
}

#[test]
fn canvas_transition_round_trips() {
    let request = Request::Wallpaper(WallpaperRequest {
        action: WallpaperAction::Next,
        transition: Some(Transition::Canvas {
            zoom_out_ms: 120,
            pan_ms: 40,
            zoom_in_ms: 180,
            easing: Easing::EaseInOutCubic,
            mode: CanvasMode::Overlap,
            walk: CanvasWalk::Strip,
            pan_axis: CanvasPanAxis::Horizontal,
            overview_scale: scale(0.25),
            tile_count: CanvasTileCount::Fixed(9),
        }),
        scale_mode: Some(ScaleMode::Fill),
    });

    assert_eq!(parse_request(&request.to_json()).unwrap(), request);
}

#[test]
fn canvas_modes_parse_and_format() {
    for mode in [
        CanvasMode::Clipped,
        CanvasMode::Morph,
        CanvasMode::Overlap,
        CanvasMode::Collage,
        CanvasMode::Span,
    ] {
        assert_eq!(CanvasMode::parse(mode.as_str()).unwrap(), mode);
    }
}

#[test]
fn legacy_canvas_mode_aliases_are_rejected() {
    for mode in ["screen", "puzzle", "spiral", "reveal", "aspect"] {
        assert!(CanvasMode::parse(mode).is_err());
    }
}

#[test]
fn canvas_collage_rejects_paged_walk() {
    for mode in ["collage", "span"] {
        let error = parse_request(&format!(
            r#"{{
                "type":"wallpaper",
                "action":"next",
                "transition":{{
                    "type":"canvas",
                    "mode":"{mode}",
                    "walk":"paged"
                }}
            }}"#,
        ))
        .unwrap_err();

        assert!(error.to_text().contains("requires canvas walk 'strip'"));
    }
}

#[test]
fn canvas_walks_parse_and_format() {
    for walk in [CanvasWalk::Paged, CanvasWalk::Strip] {
        assert_eq!(CanvasWalk::parse(walk.as_str()).unwrap(), walk);
    }
}

#[test]
fn compact_canvas_token_is_accepted() {
    let request = parse_request(
        r#"{
            "type":"wallpaper",
            "action":"next",
            "transition":"canvas"
        }"#,
    )
    .unwrap();

    assert_eq!(
        request,
        Request::Wallpaper(WallpaperRequest {
            action: WallpaperAction::Next,
            transition: Some(Transition::Canvas {
                zoom_out_ms: DEFAULT_CANVAS_OUT_MS,
                pan_ms: DEFAULT_CANVAS_PAN_MS,
                zoom_in_ms: DEFAULT_CANVAS_IN_MS,
                easing: Easing::EaseOutCubic,
                mode: CanvasMode::Clipped,
                walk: CanvasWalk::Paged,
                pan_axis: CanvasPanAxis::Auto,
                overview_scale: default_overview_scale(),
                tile_count: CanvasTileCount::Auto { max: None },
            }),
            scale_mode: None,
        })
    );
}

#[test]
fn cache_warm_request_round_trips() {
    let request = Request::Cache(CacheRequest {
        action: CacheAction::Warm {
            scope: CacheWarmScope::All,
            workers: 8,
            backend: CacheBackend::Vips,
        },
    });

    assert_eq!(parse_request(&request.to_json()).unwrap(), request);
}

#[test]
fn cache_clear_request_round_trips() {
    let request = Request::Cache(CacheRequest {
        action: CacheAction::Clear,
    });

    assert_eq!(parse_request(&request.to_json()).unwrap(), request);
}

#[test]
fn health_request_round_trips() {
    assert_eq!(
        parse_request(&Request::Health.to_json()).unwrap(),
        Request::Health
    );
}

#[test]
fn capabilities_request_round_trips() {
    assert_eq!(
        parse_request(&Request::Capabilities.to_json()).unwrap(),
        Request::Capabilities
    );
}

#[test]
fn compiled_in_transition_registry_is_complete_and_stable() {
    assert_eq!(
        transition_registry()
            .iter()
            .map(|descriptor| descriptor.name)
            .collect::<Vec<_>>(),
        ["cut", "fade", "push", "canvas", "world"]
    );

    let fade = transition_descriptor("fade").unwrap();
    assert_eq!(fade.class, TransitionClass::Pairwise);
    assert!(fade.scopes.explicit_set);
    assert!(fade.scopes.wallpaper_actions);

    let canvas = transition_descriptor("canvas").unwrap();
    assert_eq!(canvas.class, TransitionClass::Scene);
    assert!(!canvas.scopes.explicit_set);
    assert!(canvas.scopes.wallpaper_actions);
    assert_eq!(canvas.requirements, ["wallpaper action history"]);

    let world = transition_descriptor("world").unwrap();
    assert!(world.experimental);
    assert_eq!(
        world.requirements,
        [
            "supervisor planning",
            "wallpaper library",
            "ready cache coverage"
        ]
    );
}

#[test]
fn capabilities_response_round_trips_registry_schema() {
    let capabilities = CapabilitiesResponse::current(DaemonMode::Supervisor);
    let response_json = Response::Capabilities(capabilities.clone()).to_json();

    assert_eq!(
        parse_capabilities_response(&response_json).unwrap(),
        capabilities
    );
    assert!(response_json.contains("\"schema_version\":1"));
    assert!(response_json.contains("\"daemon_mode\":\"supervisor\""));
    assert!(response_json.contains("\"class\":\"pairwise\""));
    assert!(response_json.contains("\"explicit_set\":false"));
    assert!(response_json.contains("\"requirements\":[\"wallpaper action history\"]"));
    assert!(response_json.contains("\"allowed_values\":[\"up\",\"down\",\"left\",\"right\"]"));
    assert!(response_json.contains("\"required\":true,\"default\":null"));
    assert!(response_json.contains("\"default\":900"));
    assert!(response_json.contains("\"default\":0.333333"));
    assert!(!response_json.contains("\"default\":\"900\""));

    let fade = capabilities
        .transitions
        .iter()
        .find(|transition| transition.name == "fade")
        .unwrap();
    assert_eq!(
        fade.parameters[0].default_value,
        Some(TransitionParameterValue::Integer(900))
    );
    let push = capabilities
        .transitions
        .iter()
        .find(|transition| transition.name == "push")
        .unwrap();
    assert!(push.parameters[0].required);
    assert_eq!(push.parameters[0].default_value, None);
    let canvas = capabilities
        .transitions
        .iter()
        .find(|transition| transition.name == "canvas")
        .unwrap();
    assert_eq!(
        canvas
            .parameters
            .iter()
            .find(|parameter| parameter.name == "overview_scale")
            .unwrap()
            .default_value,
        Some(TransitionParameterValue::Number("0.333333".to_owned()))
    );
    assert_eq!(
        canvas
            .parameters
            .iter()
            .find(|parameter| parameter.name == "tile_count")
            .unwrap()
            .default_value,
        Some(TransitionParameterValue::String("auto".to_owned()))
    );
}

#[test]
fn standalone_capabilities_keep_world_metadata_but_disable_its_scopes() {
    let capabilities = CapabilitiesResponse::current(DaemonMode::Standalone);
    let world = capabilities
        .transitions
        .iter()
        .find(|transition| transition.name == "world")
        .unwrap();

    assert_eq!(capabilities.daemon_mode, DaemonMode::Standalone);
    assert!(!world.scopes.explicit_set);
    assert!(!world.scopes.wallpaper_actions);
    assert_eq!(
        world.requirements,
        [
            "supervisor planning",
            "wallpaper library",
            "ready cache coverage"
        ]
    );
    assert!(!world.parameters.is_empty());
}

#[test]
fn capabilities_parser_rejects_unsupported_schema_versions() {
    for schema_version in [0, 2] {
        let error = parse_capabilities_response(&format!(
            r#"{{"status":"ok","type":"capabilities","schema_version":{schema_version},"protocol_version":1,"daemon_mode":"supervisor","transitions":[]}}"#
        ))
        .unwrap_err();

        assert_eq!(
            error.message(),
            format!(
                "unsupported capabilities schema version {schema_version}; supported version is {CAPABILITIES_SCHEMA_VERSION}"
            )
        );
    }
}

#[test]
fn number_defaults_accept_integral_json_numbers() {
    let response = parse_capabilities_response(
        r#"{"status":"ok","type":"capabilities","schema_version":1,"protocol_version":1,"daemon_mode":"supervisor","transitions":[{"name":"example","class":"pairwise","scopes":{"explicit_set":true,"wallpaper_actions":false},"experimental":false,"requirements":[],"parameters":[{"name":"ratio","type":"number","allowed_values":[],"required":false,"default":1,"constraint":null}]}]}"#,
    )
    .unwrap();

    match &response.transitions[0].parameters[0].default_value {
        Some(TransitionParameterValue::Number(text)) => {
            assert_eq!(text.parse::<f64>().unwrap(), 1.0)
        }
        other => panic!("unexpected default: {other:?}"),
    }
}

fn default_read_from(number: &str) -> TransitionParameterValue {
    let text = format!(
        r#"{{"status":"ok","type":"capabilities","schema_version":1,"protocol_version":1,"daemon_mode":"supervisor","transitions":[{{"name":"example","class":"pairwise","scopes":{{}},"parameters":[{{"name":"ratio","type":"number","required":false,"default":{number}}}]}}]}}"#
    );
    let mut response = parse_capabilities_response(&text).unwrap();
    response.transitions.remove(0).parameters.remove(0).default_value.unwrap()
}

#[test]
fn number_defaults_are_kept_in_their_shortest_spelling() {
    assert_eq!(default_read_from("0.50").to_text(), "0.5");
    assert_eq!(default_read_from("1.0").to_text(), "1");
    assert_eq!(default_read_from("-1.25E+2").to_text(), "-125");
    assert_eq!(default_read_from("1e-7").to_text(), "0.0000001");
    assert_eq!(default_read_from("0.50"), default_read_from("5e-1"));
    assert_ne!(default_read_from("0.5"), default_read_from("0.25"));
    assert_eq!(default_read_from("-0.0").to_text(), "-0");
    assert_eq!(default_read_from("-0"), default_read_from("0e9"));
}

#[test]
fn numbers_are_spelled_as_the_nearest_double_is() {
    let decimals = [
        "0", "-0.0", "1", "10", "0.1", "0.10", "123456789.125", "1e22", "1e23", "8.41e21",
        "9007199254740993", "9007199254740992.9999999999999999999999", "9007199254740995",
        "5e-324", "2.4703282292062327e-324", "2.4703282292062328e-324", "2.5e-324", "1e-400",
        "0e999999999999999999999", "1e-999999999999999999999999999999999999",
        "2.2250738585072014e-308", "2.2250738585072011e-308", "4.9406564584124654e-320",
        "1.7976931348623157e308", "1.7976931348623158e308", "5.684341886080801486e-14",
        "5.960464477539063e-8", "0.333333", "-0.000001", "4503599627370496.5", "99999999999999999",
        "0.3000000000000000444089209850062616169452667236328125", "000123.4500",
    ];
    for decimal in decimals {
        let expected = decimal.parse::<f64>().unwrap().to_string();
        assert_eq!(spell(decimal), expected, "{decimal}");
        assert_eq!(spell(&expected), expected, "{decimal}");
    }
}

#[test]
fn every_double_is_spelled_as_it_is_written() {
    let mut bits: u64 = 0x9e37_79b9_7f4a_7c15;
    for round in 0..60 {
        bits = bits.wrapping_mul(6_364_136_223_846_793_005).wrapping_add(1_442_695_040_888_963_407);
        let value = f64::from_bits(match round % 3 {
            0 => bits,
            1 => bits & !0xf_ffff_ffff_ffff,
            _ => bits & 0x800f_ffff_ffff_ffff,
        });
        if value.is_finite() {
            assert_eq!(spell(&format!("{value:e}")), value.to_string());
            assert_eq!(spell(&format!("{value:.30e}")), value.to_string());
        }
    }
}

#[test]
fn large_numbers_are_counted_limb_by_limb() {
    let mut power = Big::of(u64::MAX);
    power.scale(u32::MAX, 7);
    let other = Big { limbs: vec![8, 0, u32::MAX - 1, 0] };
    assert!(other.is_less(&power));
    assert!(!power.is_less(&other));

    let sum = power.plus(&other);
    let mut difference = sum.copy();
    difference.take_off(&power);
    assert!(!difference.is_less(&other) && !other.is_less(&difference));
    assert!(power.is_less(&sum));
}

#[test]
fn fallback_socket_path_requires_a_reliable_uid() {
    assert!(fallback_socket_path_for_uid(None).is_err());
    assert_eq!(
        fallback_socket_path_for_uid(Some(1000)).unwrap(),
        "/tmp/mural-1000/mural.sock"
    );
}

#[test]
fn public_request_parser_accepts_client_requests() {
    for request in [Request::Health, Request::Capabilities] {
        assert_eq!(parse_public_request(&request.to_json()).unwrap(), request);
    }
}

#[test]
fn public_request_parser_rejects_renderer_control_requests() {
    for request_type in ["renderer_canvas_set", "renderer_world_set"] {
        let error = parse_public_request(&format!(r#"{{"type":"{request_type}"}}"#))
            .expect_err("renderer control request should not be public");

        assert_eq!(
            error.message(),
            format!(
                "request type is reserved for the internal renderer control channel: {request_type}"
            )
        );
    }
}

#[test]
fn health_response_parser_reads_outputs() {
    let response = Response::Health(Box::new(HealthResponse {
        role: "supervisor".to_owned(),
        supervisor_pid: Some(10),
        renderer_pid: Some(11),
        renderer_generation: 2,
        renderer_state: "running".to_owned(),
        restart_count: 1,
        last_error: None,
        last_diagnostic: Some("/tmp/diag.txt".to_owned()),
        outputs: vec![HealthOutput {
            name: "DP-1".to_owned(),
            layout_x: 0,
            layout_y: 0,
            width: 3840,
            height: 2160,
            power_state: "on".to_owned(),
            render_state: "renderable".to_owned(),
            restore_pending: true,
            current_image: Some("/tmp/wall.jpg".to_owned()),
            transition_target_image: Some("/tmp/target.jpg".to_owned()),
            scale_mode: ScaleMode::Fill,
            transition_state: TransitionState::Idle,
            queue_depth: 0,
            frame_callback_pending: false,
            render_pending: false,
        }],
    }))
    .to_json();

    let parsed = parse_health_response(&response).unwrap();
    assert_eq!(parsed.role, "supervisor");
    assert_eq!(parsed.renderer_pid, Some(11));
    assert_eq!(parsed.outputs[0].name, "DP-1");
    assert_eq!(parsed.outputs[0].render_state, "renderable");
    assert!(parsed.outputs[0].restore_pending);
    assert_eq!(
        parsed.outputs[0].transition_target_image.as_deref(),
        Some("/tmp/target.jpg")
    );
}

#[test]
fn renderer_canvas_set_request_round_trips() {
    let request = Request::RenderCanvasSet(RenderCanvasSetRequest {
        outputs: map_of(vec![("DP-1".to_owned(), "/tmp/wall.jpg".to_owned())]),
        transition: Transition::Canvas {
            zoom_out_ms: DEFAULT_CANVAS_OUT_MS,
            pan_ms: DEFAULT_CANVAS_PAN_MS,
            zoom_in_ms: DEFAULT_CANVAS_IN_MS,
            easing: Easing::EaseOutCubic,
            mode: CanvasMode::Clipped,
            walk: CanvasWalk::Paged,
            pan_axis: CanvasPanAxis::Auto,
            overview_scale: scale(0.333_333),
            tile_count: CanvasTileCount::Auto { max: Some(12) },
        },
        scale_mode: ScaleMode::Fill,
        allow_partial: false,
        preview_paths: vec!["/tmp/old.jpg".to_owned(), "/tmp/wall.jpg".to_owned()],
        preview_start: 3,
    });

    assert_eq!(parse_request(&request.to_json()).unwrap(), request);
}

#[test]
fn renderer_world_set_request_round_trips() {
    let request = Request::RenderWorldSet(RenderWorldSetRequest {
        outputs: map_of(vec![("DP-1".to_owned(), "/tmp/wall.jpg".to_owned())]),
        transition: Transition::World {
            duration_ms: 1200,
            easing: Easing::EaseInOutCubic,
        },
        scale_mode: ScaleMode::Fill,
        allow_partial: false,
        library_count: 10_000,
        columns: 100,
        fingerprint: 0x1234_5678,
        thumbnail_edge: 384,
        tile_cells: 8,
        routes: map_of(vec![(
            "DP-1".to_owned(),
            WorldRouteFocus {
                current_index: 4,
                target_index: 444,
                lod: 1,
            },
        )]),
    });

    assert_eq!(parse_request(&request.to_json()).unwrap(), request);
}

#[test]
fn response_error_detection_reads_json_status() {
    assert!(response_is_error(
        &Response::Error {
            message: "nope".to_owned()
        }
        .to_json()
    ));
    assert!(!response_is_error(&Response::Pong { version: 1 }.to_json()));
}

#[test]
fn json_strings_escape_control_characters() {
    let request = Request::Clear(ClearRequest {
        outputs: vec!["DP-1\nquoted".to_owned()],
        color: "#000000".to_owned(),
    });

    let parsed = parse_request(&request.to_json()).unwrap();
    assert_eq!(parsed, request);
}

#[test]
fn json_parser_combines_unicode_surrogate_pairs() {
    let parsed =
        parse_request(r##"{"type":"clear","outputs":["DP-\ud83d\ude80"],"color":"#000000"}"##)
            .unwrap();

    assert_eq!(
        parsed,
        Request::Clear(ClearRequest {
            outputs: vec!["DP-🚀".to_owned()],
            color: "#000000".to_owned(),
        })
    );
}

#[test]
fn json_parser_rejects_unpaired_unicode_surrogates() {
    for escaped in [r"\ud83dX", r"\ud83d\u0041", r"\ude80"] {
        let input =
            format!(r##"{{"type":"clear","outputs":["{escaped}"],"color":"#000000"}}"##);
        assert!(parse_request(&input).is_err(), "accepted {escaped}");
    }
}

#[test]
fn wallpaper_request_round_trip_with_indexed_action() {
    let request = Request::Wallpaper(WallpaperRequest {
        action: WallpaperAction::Replace { index: 2 },
        transition: Some(Transition::Cut),
        scale_mode: Some(ScaleMode::Fill),
    });

    assert_eq!(parse_request(&request.to_json()).unwrap(), request);
}

#[test]
fn wallpaper_response_parser_reads_entries_and_favorites() {
    let response = Response::Wallpaper(WallpaperResponse {
        action: "current".to_owned(),
        message: String::new(),
        entries: vec![WallpaperEntry {
            index: 0,
            output: "DP-1".to_owned(),
            favorite: true,
            path: "/tmp/wall.jpg".to_owned(),
        }],
        favorites: vec!["/tmp/wall.jpg".to_owned()],
    })
    .to_json();

    assert_eq!(
        parse_wallpaper_response(&response).unwrap(),
        WallpaperResponse {
            action: "current".to_owned(),
            message: String::new(),
            entries: vec![WallpaperEntry {
                index: 0,
                output: "DP-1".to_owned(),
                favorite: true,
                path: "/tmp/wall.jpg".to_owned(),
            }],
            favorites: vec!["/tmp/wall.jpg".to_owned()],
        }
    );
}

#[test]
fn json_values_are_read_with_their_fields_in_order() {
    let value = parse_json(r#" {"b": [1, true, null], "a": "x\u0041\n"} "#).unwrap();
    let object = value.as_object().unwrap();

    assert_eq!(object.key_at(0), "a");
    assert_eq!(object.get("a").unwrap().as_string().unwrap(), "xA\n");
    assert_eq!(
        object.get("b").unwrap(),
        &JsonValue::Array(vec![
            JsonValue::Number("1".to_owned()),
            JsonValue::Bool(true),
            JsonValue::Null,
        ])
    );
}

#[test]
fn malformed_json_is_refused() {
    for input in ["", "{", "[1,]", "01", "-", "1.", "1e", "\"\\x\"", "tru", "{} x", "\"\u{1}\""] {
        assert!(parse_json(input).is_err(), "accepted {input:?}");
    }
}

#[test]
fn the_later_of_two_equal_fields_counts() {
    let value = parse_json(r#"{"a":1,"a":2}"#).unwrap();

    assert_eq!(
        value.as_object().unwrap().get("a").unwrap(),
        &JsonValue::Number("2".to_owned())
    );
}

#[test]
fn requests_are_written_compactly() {
    assert_eq!(Request::Ping.to_json(), r#"{"type":"ping"}"#);
    assert_eq!(
        Request::Preload(PreloadRequest {
            outputs: map_of(vec![("DP-1".to_owned(), "/tmp/\"a\".jpg".to_owned())]),
        })
        .to_json(),
        r#"{"type":"preload","outputs":{"DP-1":"/tmp/\"a\".jpg"}}"#
    );
}

#[test]
fn every_plain_request_is_read_back() {
    for request in [
        Request::Ping,
        Request::Capabilities,
        Request::Health,
        Request::Query,
        Request::Stop,
    ] {
        assert_eq!(parse_request(&request.to_json()).unwrap(), request);
        assert_eq!(parse_public_request(&request.to_json()).unwrap(), request);
    }
}

#[test]
fn a_canvas_scale_comes_back_with_six_decimals() {
    let transition = |overview_scale: OverviewScale| {
        Request::Wallpaper(WallpaperRequest {
            action: WallpaperAction::Next,
            transition: Some(Transition::Canvas {
                zoom_out_ms: 1,
                pan_ms: 2,
                zoom_in_ms: 3,
                easing: Easing::Linear,
                mode: CanvasMode::Span,
                walk: CanvasWalk::Strip,
                pan_axis: CanvasPanAxis::Vertical,
                overview_scale,
                tile_count: CanvasTileCount::Auto { max: None },
            }),
            scale_mode: None,
        })
    };

    assert_eq!(
        parse_request(&transition(scale(1.0 / 3.0)).to_json()).unwrap(),
        transition(scale(0.333_333))
    );
}

#[test]
fn requests_without_what_they_need_are_refused() {
    let message = |input: &str| parse_request(input).unwrap_err().to_text();

    assert_eq!(message("{}"), "missing required field 'type'");
    assert_eq!(message("[]"), "expected JSON object");
    assert_eq!(message(r#"{"type":"dance"}"#), "unknown request type: dance");
    assert_eq!(
        message(r#"{"type":"set","outputs":{}}"#),
        "field 'outputs' must not be empty"
    );
    assert!(message(r#"{"type":"wallpaper","action":"replace"}"#).contains("index"));
}

#[test]
fn a_health_response_is_read_back() {
    let health = HealthResponse {
        role: "supervisor".to_owned(),
        supervisor_pid: None,
        renderer_pid: Some(u32::MAX),
        renderer_generation: u64::MAX,
        renderer_state: "starting".to_owned(),
        restart_count: 0,
        last_error: Some("lost\tcontact".to_owned()),
        last_diagnostic: None,
        outputs: vec![HealthOutput {
            name: "HDMI-A-1".to_owned(),
            layout_x: i32::MIN,
            layout_y: -1,
            width: 0,
            height: i32::MAX,
            power_state: "off".to_owned(),
            render_state: "idle".to_owned(),
            restore_pending: false,
            current_image: None,
            transition_target_image: Some("/b.png".to_owned()),
            scale_mode: ScaleMode::Stretch,
            transition_state: TransitionState::Running {
                transition: Transition::Fade { duration_ms: 5, easing: Easing::Linear },
            },
            queue_depth: 7,
            frame_callback_pending: true,
            render_pending: true,
        }],
    };
    let written = Response::Health(Box::new(health.clone())).to_json();

    assert_eq!(parse_health_response(&written).unwrap(), health);
}

#[test]
fn responses_of_another_kind_are_refused() {
    let pong = Response::Pong { version: 1 }.to_json();

    assert_eq!(
        parse_wallpaper_response(&pong).unwrap_err(),
        ProtocolError::of("expected wallpaper response, got pong")
    );
    assert_eq!(
        parse_health_response(r#"{"status":"error"}"#).unwrap_err().message(),
        "health request failed"
    );
    assert_eq!(
        parse_health_response(r#"{"status":"maybe"}"#).unwrap_err().message(),
        "unknown response status: maybe"
    );
}

#[test]
fn an_error_tells_its_message() {
    let error = Response::Error { message: "no \"such\" output".to_owned() }.to_json();

    assert_eq!(error, r#"{"status":"error","message":"no \"such\" output"}"#);
    assert!(response_is_error(&error));
    assert_eq!(response_error_message(&error).as_deref(), Some("no \"such\" output"));
    assert_eq!(response_error_message("not json"), None);
}

#[test]
fn no_other_answer_is_told_as_an_error() {
    let error = r#"{"status":"error","message":"x"}"#;
    for response in [
        Response::Ack { message: error.to_owned() },
        Response::Pong { version: 1 },
        Response::Capabilities(CapabilitiesResponse::current(DaemonMode::Supervisor)),
    ] {
        let text = response.to_json();
        assert!(!response_is_error(&text));
        assert_eq!(response_error_message(&text), None);
    }
}

#[test]
fn the_other_responses_are_written_compactly() {
    assert_eq!(
        Response::Ack { message: "ok".to_owned() }.to_json(),
        r#"{"status":"ok","type":"ack","message":"ok"}"#
    );
    assert_eq!(
        Response::Query(QueryResponse {
            outputs: vec![OutputState {
                name: "DP-1".to_owned(),
                current_image: None,
                scale_mode: ScaleMode::Center,
                transition_state: TransitionState::Idle,
                queue_depth: 2,
            }],
        })
        .to_json(),
        "{\"status\":\"ok\",\"type\":\"query\",\"outputs\":[{\"name\":\"DP-1\",\"current_image\":null,\"scale_mode\":\"center\",\"transition_state\":{\"state\":\"idle\"},\"queue_depth\":2}]}"
    );
    assert_eq!(
        Response::Cache(CacheResponse {
            action: "status".to_owned(),
            message: String::new(),
            ready: 1,
            pending: 2,
            scheduled: 3,
            failed: 4,
            backend: "auto".to_owned(),
        })
        .to_json(),
        "{\"status\":\"ok\",\"type\":\"cache\",\"action\":\"status\",\"message\":\"\",\"ready\":1,\"pending\":2,\"scheduled\":3,\"failed\":4,\"backend\":\"auto\"}"
    );
}

#[test]
fn scales_keep_their_bits() {
    assert_eq!(scale(0.25).to_bits(), 0.25_f32.to_bits());
    assert!(OverviewScale::from_bits(0.0_f32.to_bits()).is_none());
    assert!(OverviewScale::from_bits(1.5_f32.to_bits()).is_none());
    assert!(OverviewScale::from_bits(f32::NAN.to_bits()).is_none());
}
