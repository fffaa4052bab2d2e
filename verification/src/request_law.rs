//! What a request is written as, the request parser reads back.

use crate::json::Json;
use crate::protocol::{
    CacheAction, CanvasTileCount, Transition, TransitionKind, WallpaperAction,
    MAX_CANVAS_TILE_COUNT,
};
use crate::request::{
    CacheRequest, ClearView, RequestView, SetView, WallpaperRequest, WorldRouteFocus, WorldView,
};
use crate::scale::OverviewScale;
use crate::fields;
use crate::json_law;
use crate::protocol;
use crate::request;
use crate::scale;
use crate::text;
use crate::textmap;
use crate::json;
use vstd::prelude::*;

verus! {

// ---------------------------------------------------------------------------
// The names of fields and kinds differ from each other

/// A number for each name of a field.
#[verifier::opaque]
spec fn field_code(s: Seq<char>) -> int {
    if s == "type"@ {
        0
    } else if s == "outputs"@ {
        1
    } else if s == "transition"@ {
        2
    } else if s == "scale_mode"@ {
        3
    } else if s == "allow_partial"@ {
        4
    } else if s == "color"@ {
        5
    } else if s == "action"@ {
        6
    } else if s == "index"@ {
        7
    } else if s == "scope"@ {
        8
    } else if s == "workers"@ {
        9
    } else if s == "backend"@ {
        10
    } else if s == "preview_paths"@ {
        11
    } else if s == "preview_start"@ {
        12
    } else if s == "library_count"@ {
        13
    } else if s == "columns"@ {
        14
    } else if s == "fingerprint"@ {
        15
    } else if s == "thumbnail_edge"@ {
        16
    } else if s == "tile_cells"@ {
        17
    } else if s == "routes"@ {
        18
    } else if s == "current_index"@ {
        19
    } else if s == "target_index"@ {
        20
    } else if s == "lod"@ {
        21
    } else if s == "duration_ms"@ {
        22
    } else if s == "easing"@ {
        23
    } else if s == "direction"@ {
        24
    } else if s == "mode"@ {
        25
    } else if s == "zoom_out_ms"@ {
        26
    } else if s == "pan_ms"@ {
        27
    } else if s == "zoom_in_ms"@ {
        28
    } else if s == "walk"@ {
        29
    } else if s == "pan_axis"@ {
        30
    } else if s == "overview_scale"@ {
        31
    } else if s == "tile_count"@ {
        32
    } else if s == "max_tile_count"@ {
        33
    } else {
        -1
    }
}

proof fn lemma_field_codes()
    ensures
        field_code("type"@) == 0,
        field_code("outputs"@) == 1,
        field_code("transition"@) == 2,
        field_code("scale_mode"@) == 3,
        field_code("allow_partial"@) == 4,
        field_code("color"@) == 5,
        field_code("action"@) == 6,
        field_code("index"@) == 7,
        field_code("scope"@) == 8,
        field_code("workers"@) == 9,
        field_code("backend"@) == 10,
        field_code("preview_paths"@) == 11,
        field_code("preview_start"@) == 12,
        field_code("library_count"@) == 13,
        field_code("columns"@) == 14,
        field_code("fingerprint"@) == 15,
        field_code("thumbnail_edge"@) == 16,
        field_code("tile_cells"@) == 17,
        field_code("routes"@) == 18,
        field_code("current_index"@) == 19,
        field_code("target_index"@) == 20,
        field_code("lod"@) == 21,
        field_code("duration_ms"@) == 22,
        field_code("easing"@) == 23,
        field_code("direction"@) == 24,
        field_code("mode"@) == 25,
        field_code("zoom_out_ms"@) == 26,
        field_code("pan_ms"@) == 27,
        field_code("zoom_in_ms"@) == 28,
        field_code("walk"@) == 29,
        field_code("pan_axis"@) == 30,
        field_code("overview_scale"@) == 31,
        field_code("tile_count"@) == 32,
        field_code("max_tile_count"@) == 33,
{
    reveal(field_code);
    reveal_strlit("type");
    assert("type"@.len() == 4);
    reveal_strlit("outputs");
    assert("outputs"@.len() == 7);
    reveal_strlit("transition");
    assert("transition"@.len() == 10);
    reveal_strlit("scale_mode");
    assert("scale_mode"@.len() == 10);
    reveal_strlit("allow_partial");
    assert("allow_partial"@.len() == 13);
    reveal_strlit("color");
    assert("color"@.len() == 5);
    reveal_strlit("action");
    assert("action"@.len() == 6);
    reveal_strlit("index");
    assert("index"@.len() == 5);
    reveal_strlit("scope");
    assert("scope"@.len() == 5);
    reveal_strlit("workers");
    assert("workers"@.len() == 7);
    reveal_strlit("backend");
    assert("backend"@.len() == 7);
    reveal_strlit("preview_paths");
    assert("preview_paths"@.len() == 13);
    reveal_strlit("preview_start");
    assert("preview_start"@.len() == 13);
    reveal_strlit("library_count");
    assert("library_count"@.len() == 13);
    reveal_strlit("columns");
    assert("columns"@.len() == 7);
    reveal_strlit("fingerprint");
    assert("fingerprint"@.len() == 11);
    reveal_strlit("thumbnail_edge");
    assert("thumbnail_edge"@.len() == 14);
    reveal_strlit("tile_cells");
    assert("tile_cells"@.len() == 10);
    reveal_strlit("routes");
    assert("routes"@.len() == 6);
    reveal_strlit("current_index");
    assert("current_index"@.len() == 13);
    reveal_strlit("target_index");
    assert("target_index"@.len() == 12);
    reveal_strlit("lod");
    assert("lod"@.len() == 3);
    reveal_strlit("duration_ms");
    assert("duration_ms"@.len() == 11);
    reveal_strlit("easing");
    assert("easing"@.len() == 6);
    reveal_strlit("direction");
    assert("direction"@.len() == 9);
    reveal_strlit("mode");
    assert("mode"@.len() == 4);
    reveal_strlit("zoom_out_ms");
    assert("zoom_out_ms"@.len() == 11);
    reveal_strlit("pan_ms");
    assert("pan_ms"@.len() == 6);
    reveal_strlit("zoom_in_ms");
    assert("zoom_in_ms"@.len() == 10);
    reveal_strlit("walk");
    assert("walk"@.len() == 4);
    reveal_strlit("pan_axis");
    assert("pan_axis"@.len() == 8);
    reveal_strlit("overview_scale");
    assert("overview_scale"@.len() == 14);
    reveal_strlit("tile_count");
    assert("tile_count"@.len() == 10);
    reveal_strlit("max_tile_count");
    assert("max_tile_count"@.len() == 14);
    assert("type"@[0] != "mode"@[0]);
    assert("type"@[0] != "walk"@[0]);
    assert("outputs"@[0] != "workers"@[0]);
    assert("outputs"@[0] != "backend"@[0]);
    assert("outputs"@[0] != "columns"@[0]);
    assert("transition"@[0] != "scale_mode"@[0]);
    assert("transition"@[1] != "tile_cells"@[1]);
    assert("transition"@[0] != "zoom_in_ms"@[0]);
    assert("transition"@[1] != "tile_count"@[1]);
    assert("scale_mode"@[0] != "tile_cells"@[0]);
    assert("scale_mode"@[0] != "zoom_in_ms"@[0]);
    assert("scale_mode"@[0] != "tile_count"@[0]);
    assert("allow_partial"@[0] != "preview_paths"@[0]);
    assert("allow_partial"@[0] != "preview_start"@[0]);
    assert("allow_partial"@[0] != "library_count"@[0]);
    assert("allow_partial"@[0] != "current_index"@[0]);
    assert("color"@[0] != "index"@[0]);
    assert("color"@[0] != "scope"@[0]);
    assert("action"@[0] != "routes"@[0]);
    assert("action"@[0] != "easing"@[0]);
    assert("action"@[0] != "pan_ms"@[0]);
    assert("index"@[0] != "scope"@[0]);
    assert("workers"@[0] != "backend"@[0]);
    assert("workers"@[0] != "columns"@[0]);
    assert("backend"@[0] != "columns"@[0]);
    assert("preview_paths"@[8] != "preview_start"@[8]);
    assert("preview_paths"@[0] != "library_count"@[0]);
    assert("preview_paths"@[0] != "current_index"@[0]);
    assert("preview_start"@[0] != "library_count"@[0]);
    assert("preview_start"@[0] != "current_index"@[0]);
    assert("library_count"@[0] != "current_index"@[0]);
    assert("fingerprint"@[0] != "duration_ms"@[0]);
    assert("fingerprint"@[0] != "zoom_out_ms"@[0]);
    assert("thumbnail_edge"@[0] != "overview_scale"@[0]);
    assert("thumbnail_edge"@[0] != "max_tile_count"@[0]);
    assert("tile_cells"@[0] != "zoom_in_ms"@[0]);
    assert("tile_cells"@[6] != "tile_count"@[6]);
    assert("routes"@[0] != "easing"@[0]);
    assert("routes"@[0] != "pan_ms"@[0]);
    assert("duration_ms"@[0] != "zoom_out_ms"@[0]);
    assert("easing"@[0] != "pan_ms"@[0]);
    assert("mode"@[0] != "walk"@[0]);
    assert("zoom_in_ms"@[0] != "tile_count"@[0]);
    assert("overview_scale"@[0] != "max_tile_count"@[0]);
}

/// A number for each kind of request or cache action.
#[verifier::opaque]
spec fn kind_code(s: Seq<char>) -> int {
    if s == "ping"@ {
        0
    } else if s == "capabilities"@ {
        1
    } else if s == "health"@ {
        2
    } else if s == "query"@ {
        3
    } else if s == "stop"@ {
        4
    } else if s == "set"@ {
        5
    } else if s == "preload"@ {
        6
    } else if s == "clear"@ {
        7
    } else if s == "wallpaper"@ {
        8
    } else if s == "cache"@ {
        9
    } else if s == "renderer_canvas_set"@ {
        10
    } else if s == "renderer_world_set"@ {
        11
    } else if s == "status"@ {
        12
    } else if s == "warm"@ {
        13
    } else {
        -1
    }
}

proof fn lemma_kind_codes()
    ensures
        kind_code("ping"@) == 0,
        kind_code("capabilities"@) == 1,
        kind_code("health"@) == 2,
        kind_code("query"@) == 3,
        kind_code("stop"@) == 4,
        kind_code("set"@) == 5,
        kind_code("preload"@) == 6,
        kind_code("clear"@) == 7,
        kind_code("wallpaper"@) == 8,
        kind_code("cache"@) == 9,
        kind_code("renderer_canvas_set"@) == 10,
        kind_code("renderer_world_set"@) == 11,
        kind_code("status"@) == 12,
        kind_code("warm"@) == 13,
{
    reveal(kind_code);
    reveal_strlit("ping");
    assert("ping"@.len() == 4);
    reveal_strlit("capabilities");
    assert("capabilities"@.len() == 12);
    reveal_strlit("health");
    assert("health"@.len() == 6);
    reveal_strlit("query");
    assert("query"@.len() == 5);
    reveal_strlit("stop");
    assert("stop"@.len() == 4);
    reveal_strlit("set");
    assert("set"@.len() == 3);
    reveal_strlit("preload");
    assert("preload"@.len() == 7);
    reveal_strlit("clear");
    assert("clear"@.len() == 5);
    reveal_strlit("wallpaper");
    assert("wallpaper"@.len() == 9);
    reveal_strlit("cache");
    assert("cache"@.len() == 5);
    reveal_strlit("renderer_canvas_set");
    assert("renderer_canvas_set"@.len() == 19);
    reveal_strlit("renderer_world_set");
    assert("renderer_world_set"@.len() == 18);
    reveal_strlit("status");
    assert("status"@.len() == 6);
    reveal_strlit("warm");
    assert("warm"@.len() == 4);
    assert("ping"@[0] != "stop"@[0]);
    assert("ping"@[0] != "warm"@[0]);
    assert("health"@[0] != "status"@[0]);
    assert("query"@[0] != "clear"@[0]);
    assert("query"@[0] != "cache"@[0]);
    assert("stop"@[0] != "warm"@[0]);
    assert("clear"@[1] != "cache"@[1]);
}

// ---------------------------------------------------------------------------
// Looking up fields

/// The last of the first `n` fields with a name.
pub open spec fn lookup(fields: Seq<(Seq<char>, Json)>, key: Seq<char>, n: nat) -> Option<Json>
    decreases n,
{
    if n == 0 {
        None
    } else if fields[n - 1].0 == key {
        Some(json_law::canonical(fields[n - 1].1))
    } else {
        lookup(fields, key, (n - 1) as nat)
    }
}

proof fn lemma_canonical_fields_ascending(fields: Seq<(Seq<char>, Json)>)
    ensures
        textmap::keys_ascending(json_law::canonical_fields(fields)),
    decreases fields.len(),
{
    if fields.len() > 0 {
        lemma_canonical_fields_ascending(fields.drop_last());
        textmap::lemma_insert_ascending(
            json_law::canonical_fields(fields.drop_last()),
            fields.last().0,
            json_law::canonical(fields.last().1),
        );
    }
}

proof fn lemma_lookup_prefix(
    fields: Seq<(Seq<char>, Json)>,
    shorter: Seq<(Seq<char>, Json)>,
    key: Seq<char>,
    n: nat,
)
    requires
        n <= shorter.len() <= fields.len(),
        forall|i: int| 0 <= i < n ==> fields[i] == shorter[i],
    ensures
        lookup(fields, key, n) == lookup(shorter, key, n),
    decreases n,
{
    if n > 0 {
        assert(fields[n - 1] == shorter[n - 1]);
        lemma_lookup_prefix(fields, shorter, key, (n - 1) as nat);
    }
}

/// A lookup among the canonical fields finds the last field with the name.
pub proof fn lemma_lookup(fields: Seq<(Seq<char>, Json)>, key: Seq<char>)
    ensures
        textmap::entries_get(json_law::canonical_fields(fields), key) == lookup(fields, key, fields.len()),
    decreases fields.len(),
{
    if fields.len() > 0 {
        let front = fields.drop_last();
        lemma_lookup(front, key);
        lemma_lookup_prefix(fields, front, key, front.len());
        lemma_canonical_fields_ascending(front);
        textmap::lemma_get_after_insert(
            json_law::canonical_fields(front),
            fields.last().0,
            json_law::canonical(fields.last().1),
            key,
        );
    }
}

/// The fields are sound where each value is.
proof fn lemma_fields_sound(fields: Seq<(Seq<char>, Json)>, depth: nat)
    requires
        forall|i: int| 0 <= i < fields.len() ==> json_law::is_sound(#[trigger] fields[i].1, depth),
    ensures
        json_law::fields_sound(fields, depth),
    decreases fields.len(),
{
    if fields.len() > 0 {
        let front = fields.drop_last();
        assert forall|i: int| 0 <= i < front.len() implies json_law::is_sound(
            #[trigger] front[i].1,
            depth,
        ) by {
            assert(front[i] == fields[i]);
            assert(json_law::is_sound(fields[i].1, depth));
        }
        lemma_fields_sound(front, depth);
        assert(json_law::is_sound(fields[fields.len() - 1].1, depth));
    }
}

/// Whether the values of the first `n` fields are sound.
pub open spec fn sound_upto(fields: Seq<(Seq<char>, Json)>, depth: nat, n: nat) -> bool
    decreases n,
{
    n == 0 || (json_law::is_sound(fields[n - 1].1, depth) && sound_upto(fields, depth, (n - 1) as nat))
}

proof fn lemma_sound_upto(fields: Seq<(Seq<char>, Json)>, depth: nat, n: nat, i: int)
    requires
        sound_upto(fields, depth, n),
        0 <= i < n,
    ensures
        json_law::is_sound(fields[i].1, depth),
    decreases n,
{
    if i < n - 1 {
        lemma_sound_upto(fields, depth, (n - 1) as nat, i);
    }
}

pub proof fn lemma_object_sound(fields: Seq<(Seq<char>, Json)>, depth: nat)
    requires
        depth < 128,
        sound_upto(fields, depth + 1, fields.len()),
    ensures
        json_law::is_sound(Json::Object(fields), depth),
{
    assert forall|i: int| 0 <= i < fields.len() implies json_law::is_sound(
        #[trigger] fields[i].1,
        depth + 1,
    ) by {
        lemma_sound_upto(fields, depth + 1, fields.len(), i);
    }
    lemma_fields_sound(fields, depth + 1);
}

// ---------------------------------------------------------------------------
// Numbers, lists and maps

/// Reading the number that was written for a field gives it back.
pub proof fn lemma_number(n: nat, key: Seq<char>, max: nat, depth: nat)
    requires
        n <= max,
    ensures
        fields::unsigned_number(text::decimal_text(n), key, max) == Ok::<nat, Seq<char>>(n),
        json_law::is_sound(request::number_json(n), depth),
        json_law::canonical(request::number_json(n)) == request::number_json(n),
{
    text::lemma_decimal_text_shape(n);
    text::lemma_decimal_round_trip(n, max, crate::text::IntError::PosOverflow);
    json_law::lemma_decimal_is_number(n);
    let s = text::decimal_text(n);
    assert(text::is_digit(s[0]));
    assert forall|c: char| !text::is_digit(c) implies !#[trigger] s.contains(c) by {
        if s.contains(c) {
            let i = choose|i: int| 0 <= i < s.len() && s[i] == c;
            assert(text::is_digit(s[i]));
        }
    }
    assert(!text::is_digit('.') && !text::is_digit('e') && !text::is_digit('E'));
}

/// An insertion behind all other keys appends.
proof fn lemma_insert_last<V>(entries: Seq<(Seq<char>, V)>, key: Seq<char>, value: V)
    requires
        forall|i: int| 0 <= i < entries.len() ==> text::text_before((#[trigger] entries[i]).0, key),
    ensures
        textmap::entries_insert(entries, key, value) == entries.push((key, value)),
    decreases entries.len(),
{
    if entries.len() == 0 {
        assert(textmap::entries_insert(entries, key, value) =~= entries.push((key, value)));
    } else {
        let tail = entries.drop_first();
        assert(text::text_before(entries[0].0, key));
        text::lemma_text_before_irreflexive(key);
        if text::text_before(key, entries[0].0) {
            text::lemma_text_before_transitive(key, entries[0].0, key);
        }
        assert forall|i: int| 0 <= i < tail.len() implies text::text_before(
            (#[trigger] tail[i]).0,
            key,
        ) by {
            assert(tail[i] == entries[i + 1]);
        }
        lemma_insert_last(tail, key, value);
        assert(textmap::entries_insert(entries, key, value) =~= entries.push((key, value)));
    }
}

proof fn lemma_ascending_prefix<V>(entries: Seq<(Seq<char>, V)>)
    requires
        textmap::keys_ascending(entries),
        entries.len() > 0,
    ensures
        textmap::keys_ascending(entries.drop_last()),
        forall|i: int|
            0 <= i < entries.len() - 1 ==> text::text_before(
                (#[trigger] entries.drop_last()[i]).0,
                entries.last().0,
            ),
{
    let front = entries.drop_last();
    assert forall|i: int, j: int| 0 <= i < j < front.len() implies text::text_before(
        (#[trigger] front[i]).0,
        (#[trigger] front[j]).0,
    ) by {
        assert(front[i] == entries[i] && front[j] == entries[j]);
    }
    assert forall|i: int| 0 <= i < front.len() implies text::text_before(
        (#[trigger] front[i]).0,
        entries.last().0,
    ) by {
        assert(front[i] == entries[i]);
        assert(text::text_before(entries[i].0, entries[entries.len() - 1].0));
    }
}

/// Fields in the order of their names stay as they are, apart from their values.
proof fn lemma_canonical_ordered(fields: Seq<(Seq<char>, Json)>)
    requires
        textmap::keys_ascending(fields),
    ensures
        json_law::canonical_fields(fields) == Seq::new(
            fields.len(),
            |i: int| (fields[i].0, json_law::canonical(fields[i].1)),
        ),
    decreases fields.len(),
{
    let expected = Seq::new(fields.len(), |i: int| (fields[i].0, json_law::canonical(fields[i].1)));
    if fields.len() == 0 {
        assert(json_law::canonical_fields(fields) =~= expected);
    } else {
        let front = fields.drop_last();
        lemma_ascending_prefix(fields);
        lemma_canonical_ordered(front);
        let done = json_law::canonical_fields(front);
        assert forall|i: int| 0 <= i < done.len() implies text::text_before(
            (#[trigger] done[i]).0,
            fields.last().0,
        ) by {
            assert(done[i].0 == front[i].0);
        }
        lemma_insert_last(done, fields.last().0, json_law::canonical(fields.last().1));
        assert(json_law::canonical_fields(fields) =~= expected);
    }
}

/// Whether outputs are a valid part of a request.
pub open spec fn valid_outputs(outputs: Seq<(Seq<char>, Seq<char>)>) -> bool {
    &&& outputs.len() > 0
    &&& textmap::keys_ascending(outputs)
    &&& forall|i: int|
        0 <= i < outputs.len() ==> (#[trigger] outputs[i]).0.len() > 0 && outputs[i].1.len() > 0
}

proof fn lemma_outputs(outputs: Seq<(Seq<char>, Seq<char>)>)
    requires
        textmap::keys_ascending(outputs),
        forall|i: int|
            0 <= i < outputs.len() ==> (#[trigger] outputs[i]).0.len() > 0 && outputs[i].1.len()
                > 0,
    ensures
        request::outputs_in(
            Seq::new(outputs.len(), |i: int| (outputs[i].0, Json::Str(outputs[i].1))),
        ) == Ok::<Seq<(Seq<char>, Seq<char>)>, Seq<char>>(outputs),
    decreases outputs.len(),
{
    let fields = Seq::new(outputs.len(), |i: int| (outputs[i].0, Json::Str(outputs[i].1)));
    if outputs.len() == 0 {
        assert(outputs =~= Seq::<(Seq<char>, Seq<char>)>::empty());
    } else {
        let front = outputs.drop_last();
        lemma_ascending_prefix(outputs);
        assert forall|i: int| 0 <= i < front.len() implies (#[trigger] front[i]).0.len() > 0
            && front[i].1.len() > 0 by {
            assert(front[i] == outputs[i]);
        }
        lemma_outputs(front);
        assert(fields.drop_last() =~= Seq::new(
            front.len(),
            |i: int| (front[i].0, Json::Str(front[i].1)),
        ));
        assert(outputs[outputs.len() - 1].0.len() > 0);
        lemma_insert_last(front, outputs.last().0, outputs.last().1);
        assert(front.push(outputs.last()) =~= outputs);
    }
}

proof fn lemma_text_map(outputs: Seq<(Seq<char>, Seq<char>)>, depth: nat)
    requires
        textmap::keys_ascending(outputs),
        depth < 128,
    ensures
        json_law::canonical(request::text_map_json(outputs)) == request::text_map_json(outputs),
        json_law::is_sound(request::text_map_json(outputs), depth),
{
    let fields = request::text_map_json(outputs)->Object_0;
    assert forall|i: int, j: int| 0 <= i < j < fields.len() implies text::text_before(
        (#[trigger] fields[i]).0,
        (#[trigger] fields[j]).0,
    ) by {
        assert(fields[i].0 == outputs[i].0 && fields[j].0 == outputs[j].0);
    }
    lemma_canonical_ordered(fields);
    assert(json_law::canonical_fields(fields) =~= fields);
    lemma_fields_sound(fields, depth + 1);
}

pub proof fn lemma_text_list(list: Seq<Seq<char>>, depth: nat)
    requires
        depth < 128,
    ensures
        json_law::canonical(request::text_list_json(list)) == request::text_list_json(list),
        json_law::is_sound(request::text_list_json(list), depth),
        fields::strings_in(request::text_list_json(list)->Array_0) == Ok::<Seq<Seq<char>>, Seq<char>>(list),
    decreases list.len(),
{
    let values = request::text_list_json(list)->Array_0;
    if list.len() == 0 {
        assert(list =~= Seq::<Seq<char>>::empty());
        assert(values =~= Seq::<Json>::empty());
        assert(json_law::canonical_each(values) =~= values);
    } else {
        let front = list.drop_last();
        lemma_text_list(front, depth);
        assert(values.drop_last() =~= request::text_list_json(front)->Array_0);
        assert(front.push(list.last()) =~= list);
        let front_values = request::text_list_json(front)->Array_0;
        assert(json_law::canonical_each(front_values) == front_values);
        assert(values.last() == Json::Str(list.last()));
        assert(values =~= front_values.push(values.last()));
        assert(json_law::canonical(values.last()) == values.last());
        assert(json_law::is_sound(values.last(), depth + 1));
        assert(json_law::each_sound(front_values, depth + 1));
        assert(json_law::canonical_each(values) =~= values);
        assert(json_law::each_sound(values, depth + 1));
    }
}

/// Whether routes are a valid part of a request.
pub open spec fn valid_routes(routes: Seq<(Seq<char>, WorldRouteFocus)>) -> bool {
    &&& routes.len() > 0
    &&& textmap::keys_ascending(routes)
    &&& forall|i: int| 0 <= i < routes.len() ==> (#[trigger] routes[i]).0.len() > 0
}

proof fn lemma_route(focus: WorldRouteFocus, depth: nat)
    requires
        depth < 128,
    ensures
        json_law::is_sound(request::route_json(focus), depth),
        request::route_in(
            json_law::canonical(request::route_json(focus)),
        ) == Ok::<WorldRouteFocus, Seq<char>>(focus),
{
    let fields = request::route_json(focus)->Object_0;
    lemma_field_codes();
    lemma_number(focus.current_index as nat, "current_index"@, usize::MAX as nat, depth + 1);
    lemma_number(focus.target_index as nat, "target_index"@, usize::MAX as nat, depth + 1);
    lemma_number(focus.lod as nat, "lod"@, usize::MAX as nat, depth + 1);
    lemma_lookup(fields, "current_index"@);
    lemma_lookup(fields, "target_index"@);
    lemma_lookup(fields, "lod"@);
    reveal_with_fuel(lookup, 4);
    reveal_with_fuel(sound_upto, 4);
    lemma_object_sound(fields, depth);
}

proof fn lemma_route_map(routes: Seq<(Seq<char>, WorldRouteFocus)>, depth: nat)
    requires
        textmap::keys_ascending(routes),
        forall|i: int| 0 <= i < routes.len() ==> (#[trigger] routes[i]).0.len() > 0,
        depth + 1 < 128,
    ensures
        json_law::is_sound(request::route_map_json(routes), depth),
        json_law::canonical(request::route_map_json(routes)) is Object,
        (json_law::canonical(request::route_map_json(routes))->Object_0).len() == routes.len(),
        request::routes_in(json_law::canonical(request::route_map_json(routes))->Object_0) == Ok::<
            Seq<(Seq<char>, WorldRouteFocus)>,
            Seq<char>,
        >(routes),
{
    let fields = request::route_map_json(routes)->Object_0;
    assert forall|i: int, j: int| 0 <= i < j < fields.len() implies text::text_before(
        (#[trigger] fields[i]).0,
        (#[trigger] fields[j]).0,
    ) by {
        assert(fields[i].0 == routes[i].0 && fields[j].0 == routes[j].0);
    }
    lemma_canonical_ordered(fields);
    assert forall|i: int| 0 <= i < fields.len() implies json_law::is_sound(
        #[trigger] fields[i].1,
        depth + 1,
    ) by {
        lemma_route(routes[i].1, depth + 1);
    }
    lemma_fields_sound(fields, depth + 1);
    lemma_routes_read(routes, depth);
}

proof fn lemma_routes_read(routes: Seq<(Seq<char>, WorldRouteFocus)>, depth: nat)
    requires
        textmap::keys_ascending(routes),
        forall|i: int| 0 <= i < routes.len() ==> (#[trigger] routes[i]).0.len() > 0,
        depth + 1 < 128,
    ensures
        request::routes_in(
            Seq::new(
                routes.len(),
                |i: int|
                    (
                        (request::route_map_json(routes)->Object_0)[i].0,
                        json_law::canonical((request::route_map_json(routes)->Object_0)[i].1),
                    ),
            ),
        ) == Ok::<Seq<(Seq<char>, WorldRouteFocus)>, Seq<char>>(routes),
    decreases routes.len(),
{
    let all = request::route_map_json(routes)->Object_0;
    let fields = Seq::new(routes.len(), |i: int| (all[i].0, json_law::canonical(all[i].1)));
    if routes.len() == 0 {
        assert(routes =~= Seq::<(Seq<char>, WorldRouteFocus)>::empty());
    } else {
        let front = routes.drop_last();
        lemma_ascending_prefix(routes);
        assert forall|i: int| 0 <= i < front.len() implies (#[trigger] front[i]).0.len() > 0 by {
            assert(front[i] == routes[i]);
        }
        lemma_routes_read(front, depth);
        let front_all = request::route_map_json(front)->Object_0;
        assert(fields.drop_last() =~= Seq::new(
            front.len(),
            |i: int| (front_all[i].0, json_law::canonical(front_all[i].1)),
        ));
        lemma_route(routes.last().1, depth + 1);
        assert(routes[routes.len() - 1].0.len() > 0);
        lemma_insert_last(front, routes.last().0, routes.last().1);
        assert(front.push(routes.last()) =~= routes);
    }
}

// ---------------------------------------------------------------------------
// Transitions and actions

/// The scale that is read where a scale was written.
pub open spec fn scale_again(scale: OverviewScale) -> OverviewScale {
    scale::scale_reading(scale::scale_text(scale))->Scale_0
}

/// Whether a transition is one that the parser can yield. Its scale must not be so
/// small that its six decimals are all zero.
pub open spec fn valid_transition(transition: Transition) -> bool {
    match transition {
        Transition::Cut => true,
        Transition::Fade { duration_ms, .. } => duration_ms > 0,
        Transition::World { duration_ms, .. } => duration_ms > 0,
        Transition::Push { duration_ms, .. } => duration_ms > 0,
        Transition::Canvas {
            zoom_out_ms,
            pan_ms,
            zoom_in_ms,
            mode,
            walk,
            overview_scale,
            tile_count,
            ..
        } => {
            &&& zoom_out_ms > 0
            &&& pan_ms > 0
            &&& zoom_in_ms > 0
            &&& protocol::mode_walk_check(mode, walk) is Ok
            &&& overview_scale.valid()
            &&& scale::scale_reading(scale::scale_text(overview_scale)) is Scale
            &&& match tile_count {
                CanvasTileCount::Auto { max: None } => true,
                CanvasTileCount::Auto { max: Some(max) } => 1 <= max <= MAX_CANVAS_TILE_COUNT,
                CanvasTileCount::Fixed(count) => 1 <= count <= MAX_CANVAS_TILE_COUNT,
            }
        },
    }
}

/// The transition that is read where a transition was written: the scale of a canvas
/// is rounded to six decimals.
pub open spec fn transition_again(transition: Transition) -> Transition {
    match transition {
        Transition::Canvas {
            zoom_out_ms,
            pan_ms,
            zoom_in_ms,
            easing,
            mode,
            walk,
            pan_axis,
            overview_scale,
            tile_count,
        } => Transition::Canvas {
            zoom_out_ms,
            pan_ms,
            zoom_in_ms,
            easing,
            mode,
            walk,
            pan_axis,
            overview_scale: scale_again(overview_scale),
            tile_count,
        },
        _ => transition,
    }
}

proof fn lemma_simple_transition(transition: Transition, depth: nat)
    requires
        valid_transition(transition),
        !(transition is Canvas),
        depth < 128,
    ensures
        json_law::is_sound(request::transition_json(transition), depth),
        request::transition_in(
            json_law::canonical(request::transition_json(transition)),
        ) == Ok::<Transition, Seq<char>>(
            transition,
        ),
{
    let fields = request::transition_json(transition)->Object_0;
    lemma_field_codes();
    TransitionKind::Cut.law_round_trip();
    TransitionKind::Fade.law_round_trip();
    TransitionKind::World.law_round_trip();
    TransitionKind::Push.law_round_trip();
    lemma_lookup(fields, "type"@);
    lemma_lookup(fields, "duration_ms"@);
    lemma_lookup(fields, "easing"@);
    lemma_lookup(fields, "direction"@);
    lemma_lookup(fields, "mode"@);
    reveal_with_fuel(lookup, 6);
    reveal_with_fuel(sound_upto, 6);
    match transition {
        Transition::Cut => {},
        Transition::Fade { duration_ms, easing } => {
            lemma_number(duration_ms as nat, "duration_ms"@, u64::MAX as nat, depth + 1);
            easing.law_round_trip();
        },
        Transition::World { duration_ms, easing } => {
            lemma_number(duration_ms as nat, "duration_ms"@, u64::MAX as nat, depth + 1);
            easing.law_round_trip();
        },
        Transition::Push { direction, duration_ms, easing, mode } => {
            lemma_number(duration_ms as nat, "duration_ms"@, u64::MAX as nat, depth + 1);
            easing.law_round_trip();
            direction.law_round_trip();
            mode.law_round_trip();
        },
        Transition::Canvas { .. } => {},
    }
    lemma_object_sound(fields, depth);
}

/// What a lookup among the fields of a canvas transition finds.
spec fn canvas_lookup(transition: Transition, key: Seq<char>) -> Option<Json> {
    textmap::entries_get(
        json_law::canonical_fields(request::transition_json(transition)->Object_0),
        key,
    )
}

#[verifier::spinoff_prover]
#[verifier::rlimit(60)]
proof fn lemma_canvas_fields(transition: Transition)
    requires
        transition is Canvas,
    ensures
        transition matches Transition::Canvas {
        zoom_out_ms,
        pan_ms,
        zoom_in_ms,
        easing,
        mode,
        walk,
        pan_axis,
        overview_scale,
        tile_count,
    } ==> {
            &&& canvas_lookup(transition, "type"@) == Some(Json::Str("canvas"@))
            &&& canvas_lookup(transition, "zoom_out_ms"@) == Some(request::number_json(zoom_out_ms as nat))
            &&& canvas_lookup(transition, "pan_ms"@) == Some(request::number_json(pan_ms as nat))
            &&& canvas_lookup(transition, "zoom_in_ms"@) == Some(request::number_json(zoom_in_ms as nat))
            &&& canvas_lookup(transition, "easing"@) == Some(Json::Str(easing.name()))
            &&& canvas_lookup(transition, "mode"@) == Some(Json::Str(mode.name()))
            &&& canvas_lookup(transition, "walk"@) == Some(Json::Str(walk.name()))
            &&& canvas_lookup(transition, "pan_axis"@) == Some(Json::Str(pan_axis.name()))
            &&& canvas_lookup(transition, "overview_scale"@) == Some(Json::Number(scale::scale_text(overview_scale)))
            &&& canvas_lookup(transition, "duration_ms"@) is None
            &&& canvas_lookup(transition, "tile_count"@) == match tile_count {
                CanvasTileCount::Auto { .. } => Some(Json::Str("auto"@)),
                CanvasTileCount::Fixed(count) => Some(request::number_json(count as nat)),
            }
            &&& canvas_lookup(transition, "max_tile_count"@) == match tile_count {
                CanvasTileCount::Auto { max: Some(max) } => Some(request::number_json(max as nat)),
                _ => None,
            }
        },
{
    let fields = request::transition_json(transition)->Object_0;
    lemma_field_codes();
    if let Transition::Canvas {
        zoom_out_ms,
        pan_ms,
        zoom_in_ms,
        easing,
        mode,
        walk,
        pan_axis,
        overview_scale,
        tile_count,
    } = transition {
        let n = fields.len();
        lemma_lookup(fields, "type"@);
        lemma_lookup(fields, "zoom_out_ms"@);
        lemma_lookup(fields, "pan_ms"@);
        lemma_lookup(fields, "zoom_in_ms"@);
        lemma_lookup(fields, "easing"@);
        lemma_lookup(fields, "mode"@);
        lemma_lookup(fields, "walk"@);
        lemma_lookup(fields, "pan_axis"@);
        lemma_lookup(fields, "overview_scale"@);
        lemma_lookup(fields, "duration_ms"@);
        lemma_lookup(fields, "tile_count"@);
        lemma_lookup(fields, "max_tile_count"@);
        assert(lookup(fields, "type"@, n) == Some(Json::Str("canvas"@))) by {
            reveal_with_fuel(lookup, 12);
        }
        assert(lookup(fields, "zoom_out_ms"@, n) == Some(request::number_json(zoom_out_ms as nat))) by {
            reveal_with_fuel(lookup, 12);
        }
        assert(lookup(fields, "pan_ms"@, n) == Some(request::number_json(pan_ms as nat))) by {
            reveal_with_fuel(lookup, 12);
        }
        assert(lookup(fields, "zoom_in_ms"@, n) == Some(request::number_json(zoom_in_ms as nat))) by {
            reveal_with_fuel(lookup, 12);
        }
        assert(lookup(fields, "easing"@, n) == Some(Json::Str(easing.name()))) by {
            reveal_with_fuel(lookup, 12);
        }
        assert(lookup(fields, "mode"@, n) == Some(Json::Str(mode.name()))) by {
            reveal_with_fuel(lookup, 12);
        }
        assert(lookup(fields, "walk"@, n) == Some(Json::Str(walk.name()))) by {
            reveal_with_fuel(lookup, 12);
        }
        assert(lookup(fields, "pan_axis"@, n) == Some(Json::Str(pan_axis.name()))) by {
            reveal_with_fuel(lookup, 12);
        }
        assert(lookup(fields, "overview_scale"@, n) == Some(Json::Number(scale::scale_text(overview_scale)))) by {
            reveal_with_fuel(lookup, 12);
        }
        assert(lookup(fields, "duration_ms"@, n) is None) by {
            reveal_with_fuel(lookup, 12);
        }
        reveal_with_fuel(lookup, 12);
    }
}

#[verifier::spinoff_prover]
#[verifier::rlimit(60)]
proof fn lemma_canvas_sound(transition: Transition, depth: nat)
    requires
        valid_transition(transition),
        transition is Canvas,
        depth < 128,
    ensures
        json_law::is_sound(request::transition_json(transition), depth),
{
    let fields = request::transition_json(transition)->Object_0;
    if let Transition::Canvas {
        zoom_out_ms,
        pan_ms,
        zoom_in_ms,
        easing,
        mode,
        walk,
        pan_axis,
        overview_scale,
        tile_count,
    } = transition {
        lemma_number(zoom_out_ms as nat, "zoom_out_ms"@, u64::MAX as nat, depth + 1);
        lemma_number(pan_ms as nat, "pan_ms"@, u64::MAX as nat, depth + 1);
        lemma_number(zoom_in_ms as nat, "zoom_in_ms"@, u64::MAX as nat, depth + 1);
        scale::lemma_scale_text_is_number(overview_scale);
        match tile_count {
            CanvasTileCount::Auto { max: Some(max) } => {
                lemma_number(max as nat, "max_tile_count"@, usize::MAX as nat, depth + 1);
            },
            CanvasTileCount::Auto { max: None } => {},
            CanvasTileCount::Fixed(count) => {
                lemma_number(count as nat, "tile_count"@, usize::MAX as nat, depth + 1);
            },
        }
        reveal_with_fuel(sound_upto, 12);
        lemma_object_sound(fields, depth);
    }
}

#[verifier::spinoff_prover]
#[verifier::rlimit(60)]
proof fn lemma_canvas_transition(transition: Transition, depth: nat)
    requires
        valid_transition(transition),
        transition is Canvas,
        depth < 128,
    ensures
        json_law::is_sound(request::transition_json(transition), depth),
        request::transition_in(json_law::canonical(request::transition_json(transition))) == Ok::<
            Transition,
            Seq<char>,
        >(transition_again(transition)),
{
    lemma_canvas_sound(transition, depth);
    lemma_canvas_fields(transition);
    let found = json_law::canonical_fields(request::transition_json(transition)->Object_0);
    TransitionKind::Canvas.law_round_trip();
    if let Transition::Canvas {
        zoom_out_ms,
        pan_ms,
        zoom_in_ms,
        easing,
        mode,
        walk,
        pan_axis,
        overview_scale,
        tile_count,
    } = transition {
        lemma_number(zoom_out_ms as nat, "zoom_out_ms"@, u64::MAX as nat, depth + 1);
        lemma_number(pan_ms as nat, "pan_ms"@, u64::MAX as nat, depth + 1);
        lemma_number(zoom_in_ms as nat, "zoom_in_ms"@, u64::MAX as nat, depth + 1);
        easing.law_round_trip();
        mode.law_round_trip();
        walk.law_round_trip();
        pan_axis.law_round_trip();
        match tile_count {
            CanvasTileCount::Auto { max: Some(max) } => {
                lemma_number(max as nat, "max_tile_count"@, usize::MAX as nat, depth + 1);
            },
            CanvasTileCount::Auto { max: None } => {},
            CanvasTileCount::Fixed(count) => {
                lemma_number(count as nat, "tile_count"@, usize::MAX as nat, depth + 1);
            },
        }
        assert(request::phases_in(found) == Ok::<(u64, u64, u64), Seq<char>>(
            (zoom_out_ms, pan_ms, zoom_in_ms),
        ));
        assert(request::tile_count_field(found) == Ok::<CanvasTileCount, Seq<char>>(tile_count));
        assert(request::scale_field(found) == Ok::<OverviewScale, Seq<char>>(
            scale_again(overview_scale),
        ));
        assert(request::canvas_in(found, easing) == Ok::<Transition, Seq<char>>(
            transition_again(transition),
        ));
    }
}

/// Reading a transition that was written gives it back.
pub proof fn lemma_transition(transition: Transition, depth: nat)
    requires
        valid_transition(transition),
        depth < 128,
    ensures
        json_law::is_sound(request::transition_json(transition), depth),
        request::transition_in(
            json_law::canonical(request::transition_json(transition)),
        ) == Ok::<Transition, Seq<char>>(
            transition_again(transition),
        ),
        json_law::canonical(request::transition_json(transition)) is Object,
{
    if transition is Canvas {
        lemma_canvas_transition(transition, depth);
    } else {
        lemma_simple_transition(transition, depth);
    }
}

proof fn lemma_action(action: WallpaperAction, depth: nat)
    requires
        depth < 128,
    ensures
        json_law::is_sound(request::action_json(action), depth),
        request::action_in(
            json_law::canonical(request::action_json(action)),
        ) == Ok::<WallpaperAction, Seq<char>>(action),
{
    action.law_round_trip();
    if action.index() is Some {
        let index = action.index()->0;
        let fields = request::action_json(action)->Object_0;
        lemma_field_codes();
        lemma_number(index as nat, "index"@, usize::MAX as nat, depth + 1);
        lemma_lookup(fields, "type"@);
        lemma_lookup(fields, "index"@);
        reveal_with_fuel(lookup, 3);
        reveal_with_fuel(sound_upto, 3);
        lemma_object_sound(fields, depth);
    }
}

// ---------------------------------------------------------------------------
// Requests

/// Whether the part that all set requests share is valid.
pub open spec fn valid_set(set: SetView) -> bool {
    valid_outputs(set.outputs) && valid_transition(set.transition)
}

/// Whether a request is one that the parser can yield.
pub open spec fn valid_request(request: RequestView) -> bool {
    match request {
        RequestView::SetOutputs(set) => valid_set(set),
        RequestView::Preload(outputs) => valid_outputs(outputs),
        RequestView::Wallpaper(wallpaper) => wallpaper.transition matches Some(transition)
            ==> valid_transition(transition),
        RequestView::Cache(cache) => cache.action matches CacheAction::Warm { workers, .. }
            ==> workers > 0,
        RequestView::RenderCanvasSet(set, _) => valid_set(set),
        RequestView::RenderWorldSet(set, world) => valid_set(set) && valid_routes(world.routes),
        _ => true,
    }
}

/// The set request that is read where a set request was written.
pub open spec fn set_again(set: SetView) -> SetView {
    SetView { transition: transition_again(set.transition), ..set }
}

/// The request that is read where a request was written: the scale of a canvas is
/// rounded to six decimals.
pub open spec fn request_again(request: RequestView) -> RequestView {
    match request {
        RequestView::SetOutputs(set) => RequestView::SetOutputs(set_again(set)),
        RequestView::Wallpaper(wallpaper) => RequestView::Wallpaper(
            WallpaperRequest {
                transition: match wallpaper.transition {
                    Some(transition) => Some(transition_again(transition)),
                    None => None,
                },
                ..wallpaper
            },
        ),
        RequestView::RenderCanvasSet(set, preview) => RequestView::RenderCanvasSet(
            set_again(set),
            preview,
        ),
        RequestView::RenderWorldSet(set, world) => RequestView::RenderWorldSet(
            set_again(set),
            world,
        ),
        _ => request,
    }
}

/// The fields of a request, canonically.
spec fn found_fields(request: RequestView) -> Seq<(Seq<char>, Json)> {
    json_law::canonical_fields(request::request_json(request)->Object_0)
}

spec fn request_lookup(request: RequestView, key: Seq<char>) -> Option<Json> {
    textmap::entries_get(found_fields(request), key)
}

/// The set part of a request, if it has one.
spec fn set_part(request: RequestView) -> SetView {
    match request {
        RequestView::SetOutputs(set) => set,
        RequestView::RenderCanvasSet(set, _) => set,
        RequestView::RenderWorldSet(set, _) => set,
        _ => arbitrary(),
    }
}

#[verifier::spinoff_prover]
#[verifier::rlimit(60)]
proof fn lemma_set_lookups(request: RequestView)
    requires
        request is SetOutputs || request is RenderCanvasSet || request is RenderWorldSet,
    ensures
        request_lookup(request, "type"@) == Some(
            Json::Str(
                if request is SetOutputs {
                    "set"@
                } else if request is RenderCanvasSet {
                    "renderer_canvas_set"@
                } else {
                    "renderer_world_set"@
                },
            ),
        ),
        request_lookup(request, "outputs"@) == Some(
            json_law::canonical(request::text_map_json(set_part(request).outputs)),
        ),
        request_lookup(request, "transition"@) == Some(
            json_law::canonical(request::transition_json(set_part(request).transition)),
        ),
        request_lookup(request, "scale_mode"@) == Some(
            Json::Str(set_part(request).scale_mode.name()),
        ),
        request_lookup(request, "allow_partial"@) == Some(
            Json::Bool(set_part(request).allow_partial),
        ),
{
    let fields = request::request_json(request)->Object_0;
    let n = fields.len();
    lemma_field_codes();
    lemma_lookup(fields, "type"@);
    lemma_lookup(fields, "outputs"@);
    lemma_lookup(fields, "transition"@);
    lemma_lookup(fields, "scale_mode"@);
    lemma_lookup(fields, "allow_partial"@);
    let set = set_part(request);
    let base = request::set_fields(fields[0].1->Str_0, set);
    assert(fields[0].0 == "type"@);
    assert(fields[1] == ("outputs"@, request::text_map_json(set.outputs)));
    assert(fields[2] == ("transition"@, request::transition_json(set.transition)));
    assert(fields[3] == ("scale_mode"@, Json::Str(set.scale_mode.name())));
    assert(fields[4] == ("allow_partial"@, Json::Bool(set.allow_partial)));
    assert(lookup(fields, "type"@, n) == Some(json_law::canonical(fields[0].1))) by {
        reveal_with_fuel(lookup, 12);
    }
    assert(lookup(fields, "outputs"@, n) == Some(json_law::canonical(fields[1].1))) by {
        reveal_with_fuel(lookup, 12);
    }
    assert(lookup(fields, "transition"@, n) == Some(json_law::canonical(fields[2].1))) by {
        reveal_with_fuel(lookup, 12);
    }
    assert(lookup(fields, "scale_mode"@, n) == Some(json_law::canonical(fields[3].1))) by {
        reveal_with_fuel(lookup, 12);
    }
    assert(lookup(fields, "allow_partial"@, n) == Some(json_law::canonical(fields[4].1))) by {
        reveal_with_fuel(lookup, 12);
    }
}

proof fn lemma_set_part(request: RequestView)
    requires
        request is SetOutputs || request is RenderCanvasSet || request is RenderWorldSet,
        valid_set(set_part(request)),
    ensures
        request::set_in(found_fields(request), true) == Ok::<SetView, Seq<char>>(
            set_again(set_part(request)),
        ),
        request::set_in(found_fields(request), false) == Ok::<SetView, Seq<char>>(
            set_again(set_part(request)),
        ),
{
    let set = set_part(request);
    lemma_set_lookups(request);
    lemma_text_map(set.outputs, 1);
    lemma_outputs(set.outputs);
    lemma_transition(set.transition, 1);
    set.scale_mode.law_round_trip();
}

#[verifier::spinoff_prover]
#[verifier::rlimit(60)]
proof fn lemma_set_sound(request: RequestView)
    requires
        request is SetOutputs || request is RenderCanvasSet || request is RenderWorldSet,
        valid_request(request),
    ensures
        json_law::is_sound(request::request_json(request), 0),
{
    let fields = request::request_json(request)->Object_0;
    let set = set_part(request);
    lemma_text_map(set.outputs, 1);
    lemma_transition(set.transition, 1);
    match request {
        RequestView::RenderCanvasSet(_, preview) => {
            lemma_text_list(preview.paths, 1);
            lemma_number(preview.start as nat, "preview_start"@, usize::MAX as nat, 1);
        },
        RequestView::RenderWorldSet(_, world) => {
            lemma_number(world.library_count as nat, "library_count"@, usize::MAX as nat, 1);
            lemma_number(world.columns as nat, "columns"@, usize::MAX as nat, 1);
            lemma_number(world.fingerprint as nat, "fingerprint"@, u64::MAX as nat, 1);
            lemma_number(world.thumbnail_edge as nat, "thumbnail_edge"@, u32::MAX as nat, 1);
            lemma_number(world.tile_cells as nat, "tile_cells"@, usize::MAX as nat, 1);
            lemma_route_map(world.routes, 1);
        },
        _ => {},
    }
    reveal_with_fuel(sound_upto, 12);
    lemma_object_sound(fields, 0);
}

#[verifier::spinoff_prover]
#[verifier::rlimit(60)]
proof fn lemma_canvas_request(request: RequestView)
    requires
        request is RenderCanvasSet,
        valid_request(request),
    ensures
        request::request_in_fields(found_fields(request), true) == Ok::<RequestView, Seq<char>>(
            request_again(request),
        ),
{
    if let RequestView::RenderCanvasSet(set, preview) = request {
        let fields = request::request_json(request)->Object_0;
        let n = fields.len();
        lemma_set_part(request);
        lemma_set_lookups(request);
        lemma_field_codes();
        lemma_kind_codes();
        lemma_lookup(fields, "preview_paths"@);
        lemma_lookup(fields, "preview_start"@);
        assert(fields[5] == ("preview_paths"@, request::text_list_json(preview.paths)));
        assert(fields[6] == ("preview_start"@, request::number_json(preview.start as nat)));
        assert(lookup(fields, "preview_paths"@, n) == Some(json_law::canonical(fields[5].1))) by {
            reveal_with_fuel(lookup, 12);
        }
        assert(lookup(fields, "preview_start"@, n) == Some(json_law::canonical(fields[6].1))) by {
            reveal_with_fuel(lookup, 12);
        }
        lemma_text_list(preview.paths, 1);
        lemma_number(preview.start as nat, "preview_start"@, usize::MAX as nat, 1);
    }
}

#[verifier::spinoff_prover]
#[verifier::rlimit(60)]
proof fn lemma_world_request(request: RequestView)
    requires
        request is RenderWorldSet,
        valid_request(request),
    ensures
        request::request_in_fields(found_fields(request), true) == Ok::<RequestView, Seq<char>>(
            request_again(request),
        ),
{
    if let RequestView::RenderWorldSet(set, world) = request {
        let fields = request::request_json(request)->Object_0;
        let n = fields.len();
        lemma_set_part(request);
        lemma_set_lookups(request);
        lemma_field_codes();
        lemma_kind_codes();
        lemma_lookup(fields, "library_count"@);
        lemma_lookup(fields, "columns"@);
        lemma_lookup(fields, "fingerprint"@);
        lemma_lookup(fields, "thumbnail_edge"@);
        lemma_lookup(fields, "tile_cells"@);
        lemma_lookup(fields, "routes"@);
        assert(fields[5] == ("library_count"@, request::number_json(world.library_count as nat)));
        assert(fields[6] == ("columns"@, request::number_json(world.columns as nat)));
        assert(fields[7] == ("fingerprint"@, request::number_json(world.fingerprint as nat)));
        assert(fields[8] == ("thumbnail_edge"@, request::number_json(world.thumbnail_edge as nat)));
        assert(fields[9] == ("tile_cells"@, request::number_json(world.tile_cells as nat)));
        assert(fields[10] == ("routes"@, request::route_map_json(world.routes)));
        assert(lookup(fields, "library_count"@, n) == Some(json_law::canonical(fields[5].1))) by {
            reveal_with_fuel(lookup, 12);
        }
        assert(lookup(fields, "columns"@, n) == Some(json_law::canonical(fields[6].1))) by {
            reveal_with_fuel(lookup, 12);
        }
        assert(lookup(fields, "fingerprint"@, n) == Some(json_law::canonical(fields[7].1))) by {
            reveal_with_fuel(lookup, 12);
        }
        assert(lookup(fields, "thumbnail_edge"@, n) == Some(json_law::canonical(fields[8].1))) by {
            reveal_with_fuel(lookup, 12);
        }
        assert(lookup(fields, "tile_cells"@, n) == Some(json_law::canonical(fields[9].1))) by {
            reveal_with_fuel(lookup, 12);
        }
        assert(lookup(fields, "routes"@, n) == Some(json_law::canonical(fields[10].1))) by {
            reveal_with_fuel(lookup, 12);
        }
        lemma_number(world.library_count as nat, "library_count"@, usize::MAX as nat, 1);
        lemma_number(world.columns as nat, "columns"@, usize::MAX as nat, 1);
        lemma_number(world.fingerprint as nat, "fingerprint"@, u64::MAX as nat, 1);
        lemma_number(world.thumbnail_edge as nat, "thumbnail_edge"@, u32::MAX as nat, 1);
        lemma_number(world.tile_cells as nat, "tile_cells"@, usize::MAX as nat, 1);
        lemma_route_map(world.routes, 1);
        assert(request::world_in(found_fields(request)) == Ok::<WorldView, Seq<char>>(world));
    }
}

/// The kind of a request.
spec fn kind_of(request: RequestView) -> Seq<char> {
    match request {
        RequestView::Ping => "ping"@,
        RequestView::Capabilities => "capabilities"@,
        RequestView::Health => "health"@,
        RequestView::Query => "query"@,
        RequestView::Stop => "stop"@,
        RequestView::SetOutputs(_) => "set"@,
        RequestView::Preload(_) => "preload"@,
        RequestView::Clear(_) => "clear"@,
        RequestView::Wallpaper(_) => "wallpaper"@,
        RequestView::Cache(_) => "cache"@,
        RequestView::RenderCanvasSet(_, _) => "renderer_canvas_set"@,
        RequestView::RenderWorldSet(_, _) => "renderer_world_set"@,
    }
}

proof fn lemma_sound_wallpaper(wallpaper: WallpaperRequest)
    requires
        valid_request(RequestView::Wallpaper(wallpaper)),
    ensures
        json_law::is_sound(request::request_json(RequestView::Wallpaper(wallpaper)), 0),
{
    let fields = request::request_json(RequestView::Wallpaper(wallpaper))->Object_0;
    lemma_action(wallpaper.action, 1);
    if let Some(transition) = wallpaper.transition {
        lemma_transition(transition, 1);
    }
    assert(json_law::is_sound(fields[0].1, 1));
    assert(json_law::is_sound(fields[1].1, 1));
    assert(json_law::is_sound(fields[2].1, 1));
    assert(json_law::is_sound(fields[3].1, 1));
    assert(sound_upto(fields, 1, 4)) by {
        reveal_with_fuel(sound_upto, 5);
    }
    lemma_object_sound(fields, 0);
}

proof fn lemma_wallpaper_lookups(wallpaper: WallpaperRequest)
    ensures
        ({
            let found = found_fields(RequestView::Wallpaper(wallpaper));
            &&& textmap::entries_get(found, "type"@) == Some(Json::Str("wallpaper"@))
            &&& textmap::entries_get(found, "action"@) == Some(json_law::canonical(request::action_json(wallpaper.action)))
            &&& textmap::entries_get(found, "transition"@) == Some(
                match wallpaper.transition {
                    Some(transition) => json_law::canonical(request::transition_json(transition)),
                    None => Json::Null,
                },
            )
            &&& textmap::entries_get(found, "scale_mode"@) == Some(
                match wallpaper.scale_mode {
                    Some(scale_mode) => Json::Str(scale_mode.name()),
                    None => Json::Null,
                },
            )
        }),
{
    let fields = request::request_json(RequestView::Wallpaper(wallpaper))->Object_0;
    lemma_field_codes();
    lemma_lookup(fields, "type"@);
    lemma_lookup(fields, "action"@);
    lemma_lookup(fields, "transition"@);
    lemma_lookup(fields, "scale_mode"@);
    assert(lookup(fields, "type"@, 4) == Some(json_law::canonical(fields[0].1))) by {
        reveal_with_fuel(lookup, 5);
    }
    assert(lookup(fields, "action"@, 4) == Some(json_law::canonical(fields[1].1))) by {
        reveal_with_fuel(lookup, 5);
    }
    assert(lookup(fields, "transition"@, 4) == Some(json_law::canonical(fields[2].1))) by {
        reveal_with_fuel(lookup, 5);
    }
    assert(lookup(fields, "scale_mode"@, 4) == Some(json_law::canonical(fields[3].1))) by {
        reveal_with_fuel(lookup, 5);
    }
}

proof fn lemma_wallpaper_read(wallpaper: WallpaperRequest)
    requires
        valid_request(RequestView::Wallpaper(wallpaper)),
    ensures
        request::wallpaper_in(found_fields(RequestView::Wallpaper(wallpaper))) == Ok::<
            WallpaperRequest,
            Seq<char>,
        >(request_again(RequestView::Wallpaper(wallpaper))->Wallpaper_0),
{
    lemma_wallpaper_lookups(wallpaper);
    lemma_action(wallpaper.action, 1);
    if let Some(transition) = wallpaper.transition {
        lemma_transition(transition, 1);
    }
    if let Some(scale_mode) = wallpaper.scale_mode {
        scale_mode.law_round_trip();
    }
}

proof fn lemma_cache_sound(cache: CacheRequest)
    ensures
        json_law::is_sound(request::request_json(RequestView::Cache(cache)), 0),
{
    let fields = request::request_json(RequestView::Cache(cache))->Object_0;
    if let CacheAction::Warm { scope, workers, backend } = cache.action {
        lemma_number(workers as nat, "workers"@, usize::MAX as nat, 1);
        assert(sound_upto(fields, 1, 5)) by {
            reveal_with_fuel(sound_upto, 6);
        }
    } else {
        assert(sound_upto(fields, 1, 2)) by {
            reveal_with_fuel(sound_upto, 3);
        }
    }
    lemma_object_sound(fields, 0);
}

proof fn lemma_cache_lookups(cache: CacheRequest)
    ensures
        ({
            let found = found_fields(RequestView::Cache(cache));
            &&& textmap::entries_get(found, "type"@) == Some(Json::Str("cache"@))
            &&& match cache.action {
                CacheAction::Status => textmap::entries_get(found, "action"@) == Some(
                    Json::Str("status"@),
                ),
                CacheAction::Clear => textmap::entries_get(found, "action"@) == Some(Json::Str("clear"@)),
                CacheAction::Warm { scope, workers, backend } => {
                    &&& textmap::entries_get(found, "action"@) == Some(Json::Str("warm"@))
                    &&& textmap::entries_get(found, "scope"@) == Some(Json::Str(scope.name()))
                    &&& textmap::entries_get(found, "workers"@) == Some(request::number_json(workers as nat))
                    &&& textmap::entries_get(found, "backend"@) == Some(Json::Str(backend.name()))
                },
            }
        }),
{
    let fields = request::request_json(RequestView::Cache(cache))->Object_0;
    lemma_field_codes();
    lemma_lookup(fields, "type"@);
    lemma_lookup(fields, "action"@);
    if let CacheAction::Warm { scope, workers, backend } = cache.action {
        lemma_lookup(fields, "scope"@);
        lemma_lookup(fields, "workers"@);
        lemma_lookup(fields, "backend"@);
        assert(lookup(fields, "type"@, 5) == Some(fields[0].1)) by {
            reveal_with_fuel(lookup, 6);
        }
        assert(lookup(fields, "action"@, 5) == Some(fields[1].1)) by {
            reveal_with_fuel(lookup, 6);
        }
        assert(lookup(fields, "scope"@, 5) == Some(fields[2].1)) by {
            reveal_with_fuel(lookup, 6);
        }
        assert(lookup(fields, "workers"@, 5) == Some(fields[3].1)) by {
            reveal_with_fuel(lookup, 6);
        }
        assert(lookup(fields, "backend"@, 5) == Some(fields[4].1)) by {
            reveal_with_fuel(lookup, 6);
        }
    } else {
        assert(lookup(fields, "type"@, 2) == Some(fields[0].1)) by {
            reveal_with_fuel(lookup, 3);
        }
        assert(lookup(fields, "action"@, 2) == Some(fields[1].1)) by {
            reveal_with_fuel(lookup, 3);
        }
    }
}

proof fn lemma_cache_read(cache: CacheRequest)
    requires
        valid_request(RequestView::Cache(cache)),
    ensures
        request::cache_in(found_fields(RequestView::Cache(cache))) == Ok::<CacheRequest, Seq<char>>(cache),
{
    lemma_cache_lookups(cache);
    lemma_kind_codes();
    if let CacheAction::Warm { scope, workers, backend } = cache.action {
        lemma_number(workers as nat, "workers"@, usize::MAX as nat, 1);
        scope.law_round_trip();
        backend.law_round_trip();
    }
}

proof fn lemma_preload(outputs: Seq<(Seq<char>, Seq<char>)>)
    requires
        valid_outputs(outputs),
    ensures
        json_law::is_sound(request::request_json(RequestView::Preload(outputs)), 0),
        textmap::entries_get(found_fields(RequestView::Preload(outputs)), "type"@) == Some(
            Json::Str("preload"@),
        ),
        request::outputs_field(found_fields(RequestView::Preload(outputs))) == Ok::<
            Seq<(Seq<char>, Seq<char>)>,
            Seq<char>,
        >(outputs),
{
    let fields = request::request_json(RequestView::Preload(outputs))->Object_0;
    lemma_field_codes();
    lemma_text_map(outputs, 1);
    lemma_outputs(outputs);
    lemma_lookup(fields, "type"@);
    lemma_lookup(fields, "outputs"@);
    assert(lookup(fields, "type"@, 2) == Some(fields[0].1)) by {
        reveal_with_fuel(lookup, 3);
    }
    assert(lookup(fields, "outputs"@, 2) == Some(json_law::canonical(fields[1].1))) by {
        reveal_with_fuel(lookup, 3);
    }
    assert(sound_upto(fields, 1, 2)) by {
        reveal_with_fuel(sound_upto, 3);
    }
    lemma_object_sound(fields, 0);
}

proof fn lemma_clear(clear: ClearView)
    ensures
        json_law::is_sound(request::request_json(RequestView::Clear(clear)), 0),
        textmap::entries_get(found_fields(RequestView::Clear(clear)), "type"@) == Some(
            Json::Str("clear"@),
        ),
        request::clear_in(found_fields(RequestView::Clear(clear))) == Ok::<ClearView, Seq<char>>(clear),
{
    let fields = request::request_json(RequestView::Clear(clear))->Object_0;
    lemma_field_codes();
    lemma_text_list(clear.outputs, 1);
    lemma_lookup(fields, "type"@);
    lemma_lookup(fields, "outputs"@);
    lemma_lookup(fields, "color"@);
    assert(lookup(fields, "type"@, 3) == Some(fields[0].1)) by {
        reveal_with_fuel(lookup, 4);
    }
    assert(lookup(fields, "outputs"@, 3) == Some(json_law::canonical(fields[1].1))) by {
        reveal_with_fuel(lookup, 4);
    }
    assert(lookup(fields, "color"@, 3) == Some(fields[2].1)) by {
        reveal_with_fuel(lookup, 4);
    }
    assert(sound_upto(fields, 1, 3)) by {
        reveal_with_fuel(sound_upto, 4);
    }
    lemma_object_sound(fields, 0);
}

/// A request with no other field than its kind.
proof fn lemma_bare(request: RequestView)
    requires
        request is Ping || request is Capabilities || request is Health || request is Query
            || request is Stop,
    ensures
        json_law::is_sound(request::request_json(request), 0),
        textmap::entries_get(found_fields(request), "type"@) == Some(Json::Str(kind_of(request))),
{
    let fields = request::request_json(request)->Object_0;
    lemma_lookup(fields, "type"@);
    assert(fields.len() == 1);
    assert(fields[0] == ("type"@, Json::Str(kind_of(request))));
    assert(lookup(fields, "type"@, 1) == Some(Json::Str(kind_of(request)))) by {
        reveal_with_fuel(lookup, 2);
    }
    assert(sound_upto(fields, 1, 1)) by {
        reveal_with_fuel(sound_upto, 2);
    }
    lemma_object_sound(fields, 0);
}

/// Parsing the JSON of a request gives the request back; the scale of a canvas comes
/// back with six decimals.
pub proof fn law_request_round_trip(request: RequestView)
    requires
        valid_request(request),
    ensures
        request::request_in(
            json::encoded(request::request_json(request)),
            true,
        ) == Ok::<RequestView, Seq<char>>(
            request_again(request),
        ),
{
    lemma_kind_codes();
    match request {
        RequestView::SetOutputs(_) => {
            lemma_set_sound(request);
            lemma_set_part(request);
            lemma_set_lookups(request);
        },
        RequestView::RenderCanvasSet(_, _) => {
            lemma_set_sound(request);
            lemma_canvas_request(request);
        },
        RequestView::RenderWorldSet(_, _) => {
            lemma_set_sound(request);
            lemma_world_request(request);
        },
        RequestView::Wallpaper(wallpaper) => {
            lemma_sound_wallpaper(wallpaper);
            lemma_wallpaper_lookups(wallpaper);
            lemma_wallpaper_read(wallpaper);
        },
        RequestView::Cache(cache) => {
            lemma_cache_sound(cache);
            lemma_cache_lookups(cache);
            lemma_cache_read(cache);
        },
        RequestView::Preload(outputs) => {
            lemma_preload(outputs);
        },
        RequestView::Clear(clear) => {
            lemma_clear(clear);
        },
        _ => {
            lemma_bare(request);
        },
    }
    json_law::law_json_round_trip(request::request_json(request));
}

/// Where every canvas scale is one of six decimals, parsing the JSON of a request
/// gives exactly the request back.
pub proof fn law_request_round_trip_exact(request: RequestView)
    requires
        valid_request(request),
        request_again(request) == request,
    ensures
        request::request_in(
            json::encoded(request::request_json(request)),
            true,
        ) == Ok::<RequestView, Seq<char>>(request),
{
    law_request_round_trip(request);
}

/// On a public socket, the JSON of a renderer planning request is answered with an
/// error that names it.
pub proof fn law_public_socket_rejects_renderer_requests(request: RequestView)
    requires
        valid_request(request),
        request is RenderCanvasSet || request is RenderWorldSet,
    ensures
        request::request_in(
            json::encoded(request::request_json(request)),
            false,
        ) == Err::<RequestView, Seq<char>>(
            "request type is reserved for the internal renderer control channel: "@ + if request
                is RenderCanvasSet {
                "renderer_canvas_set"@
            } else {
                "renderer_world_set"@
            },
        ),
{
    lemma_kind_codes();
    lemma_set_sound(request);
    lemma_set_lookups(request);
    json_law::law_json_round_trip(request::request_json(request));
}

} // verus!
