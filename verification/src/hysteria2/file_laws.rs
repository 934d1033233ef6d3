//! Which files strangers get, as what.

use vstd::prelude::*;

use crate::hysteria2::files::{
    all_safe, content_type_spec, extension, file_name, file_path_spec, filled_parts,
    is_safe_segment, pushed, pushed_all, request_segments, without_last_steps,
};
use crate::text::{last_at, split_spec, without_leading};
use crate::text_laws::{
    joined_parts_are_found, joined_with, leading_splits, none_contains, the_last_place_is_found,
};

verus! {

/// A segment that a file may be asked for by: it holds something, but neither a
/// slash, nor only a dot, nor only two.
pub open spec fn is_plain_segment(segment: Seq<char>) -> bool {
    &&& segment.len() > 0
    &&& !segment.contains('/')
    &&& !(segment.len() == 1 && segment[0] == '.')
    &&& !(segment.len() == 2 && segment[0] == '.' && segment[1] == '.')
}

pub open spec fn all_plain(segments: Seq<Seq<char>>) -> bool {
    forall|i: int| 0 <= i < segments.len() ==> is_plain_segment(#[trigger] segments[i])
}

proof fn lone_part(segment: Seq<char>)
    requires
        !segment.contains('/'),
    ensures
        split_spec(segment, '/') == seq![segment],
{
    let parts = seq![segment];
    assert(parts[0] == segment);
    joined_parts_are_found(parts, '/');
    assert(joined_with(parts, '/') == segment);
}

/// Of segments without a slash, exactly the plain ones are served.
pub proof fn plain_segments_are_safe(segment: Seq<char>)
    requires
        !segment.contains('/'),
    ensures
        is_safe_segment(segment) <==> is_plain_segment(segment),
{
    lone_part(segment);
    if segment.len() > 0 {
        assert(segment[0] != '/');
    }
    if segment.len() == 1 && segment[0] == '.' {
        assert(segment =~= seq!['.']);
    }
    if segment.len() == 2 && segment[0] == '.' && segment[1] == '.' {
        assert(segment =~= seq!['.', '.']);
    }
}

/// Empty parts are passed over; the others stay in their order.
pub proof fn empty_parts_are_passed_over(parts: Seq<Seq<char>>)
    ensures
        filled_parts(parts) == parts.filter(|part: Seq<char>| part.len() > 0),
    decreases parts.len(),
{
    reveal(Seq::filter);
    if parts.len() > 0 {
        empty_parts_are_passed_over(parts.drop_last());
    }
}

proof fn all_are_filled(parts: Seq<Seq<char>>)
    requires
        forall|i: int| 0 <= i < parts.len() ==> (#[trigger] parts[i]).len() > 0,
    ensures
        filled_parts(parts) == parts,
    decreases parts.len(),
{
    if parts.len() > 0 {
        let front = parts.drop_last();
        assert(forall|i: int| 0 <= i < front.len() ==> front[i] == parts[i]);
        all_are_filled(front);
        assert(front.push(parts.last()) =~= parts);
    }
}

proof fn joined_starts_with(segments: Seq<Seq<char>>)
    requires
        segments.len() > 0,
        segments[0].len() > 0,
    ensures
        joined_with(segments, '/').len() > 0,
        joined_with(segments, '/')[0] == segments[0][0],
{
}

proof fn joined_ends_with(segments: Seq<Seq<char>>)
    requires
        segments.len() > 0,
        segments.last().len() > 0,
    ensures
        joined_with(segments, '/').len() > 0,
        joined_with(segments, '/').last() == segments.last().last(),
    decreases segments.len(),
{
    if segments.len() > 1 {
        let rest = segments.drop_first();
        assert(rest.last() == segments.last());
        joined_ends_with(rest);
    }
}

/// One slash after the other is dropped from the front of a text.
proof fn slash_goes(path: Seq<char>)
    ensures
        without_leading(seq!['/'] + path, '/') == without_leading(path, '/'),
{
    assert((seq!['/'] + path).drop_first() =~= path);
}

proof fn nothing_goes(path: Seq<char>)
    requires
        path.len() == 0 || path[0] != '/',
    ensures
        without_leading(path, '/') == path,
{
}

/// How many slashes stand in front of a path does not matter.
pub proof fn leading_slashes_do_not_matter(dir: Seq<char>, path: Seq<char>)
    ensures
        file_path_spec(dir, seq!['/'] + path) == file_path_spec(dir, path),
{
    slash_goes(path);
}

/// A path of plain segments leads to the file under the directory that they
/// name.
pub proof fn paths_lead_to_files(dir: Seq<char>, segments: Seq<Seq<char>>)
    requires
        segments.len() > 0,
        all_plain(segments),
    ensures
        file_path_spec(dir, seq!['/'] + joined_with(segments, '/')) == Some(
            pushed_all(dir, segments),
        ),
{
    let path = joined_with(segments, '/');
    slash_goes(path);
    assert(is_plain_segment(segments[0]));
    assert(is_plain_segment(segments.last()));
    joined_starts_with(segments);
    joined_ends_with(segments);
    assert(segments[0].contains(segments[0][0]));
    assert(segments.last().contains(segments.last().last()));
    nothing_goes(path);
    assert forall|i: int| 0 <= i < segments.len() implies !(#[trigger] segments[i]).contains(
        '/',
    ) by {
        assert(is_plain_segment(segments[i]));
    }
    joined_parts_are_found(segments, '/');
    assert forall|i: int| 0 <= i < segments.len() implies (#[trigger] segments[i]).len() > 0 by {
        assert(is_plain_segment(segments[i]));
    }
    all_are_filled(segments);
    assert forall|i: int| 0 <= i < segments.len() implies is_safe_segment(
        #[trigger] segments[i],
    ) by {
        assert(is_plain_segment(segments[i]));
        plain_segments_are_safe(segments[i]);
    }
}

/// A slash at the end leads to the index of the directory that the path names.
pub proof fn directories_lead_to_their_index(dir: Seq<char>, segments: Seq<Seq<char>>)
    requires
        segments.len() > 0,
        all_plain(segments),
    ensures
        file_path_spec(dir, seq!['/'] + joined_with(segments.push(Seq::empty()), '/')) == Some(
            pushed(pushed_all(dir, segments), "index.html"@),
        ),
        file_path_spec(dir, seq!['/']) == Some(pushed(dir, "index.html"@)),
{
    let parts = segments.push(Seq::empty());
    let path = joined_with(parts, '/');
    slash_goes(path);
    assert(is_plain_segment(segments[0]));
    assert(parts[0] == segments[0]);
    joined_starts_with(parts);
    assert(segments[0].contains(segments[0][0]));
    nothing_goes(path);
    ends_in_slash(segments);
    assert forall|i: int| 0 <= i < parts.len() implies !(#[trigger] parts[i]).contains('/') by {
        if i < segments.len() {
            assert(is_plain_segment(segments[i]));
        }
    }
    joined_parts_are_found(parts, '/');
    assert(parts.drop_last() =~= segments);
    assert forall|i: int| 0 <= i < segments.len() implies (#[trigger] segments[i]).len() > 0 by {
        assert(is_plain_segment(segments[i]));
    }
    all_are_filled(segments);
    assert forall|i: int| 0 <= i < segments.len() implies is_safe_segment(
        #[trigger] segments[i],
    ) by {
        assert(is_plain_segment(segments[i]));
        plain_segments_are_safe(segments[i]);
    }
    let root = Seq::<char>::empty();
    assert(seq!['/'] + root =~= seq!['/']);
    slash_goes(root);
    lone_part(root);
    reveal_with_fuel(filled_parts, 2);
    assert(seq![root].drop_last() =~= Seq::<Seq<char>>::empty());
    assert(request_segments(seq!['/']) =~= Seq::<Seq<char>>::empty());
}

proof fn ends_in_slash(segments: Seq<Seq<char>>)
    requires
        segments.len() > 0,
    ensures
        joined_with(segments.push(Seq::empty()), '/').len() > 0,
        joined_with(segments.push(Seq::empty()), '/').last() == '/',
    decreases segments.len(),
{
    let parts = segments.push(Seq::empty());
    let rest = parts.drop_first();
    if segments.len() == 1 {
        assert(rest =~= seq![Seq::<char>::empty()]);
        assert(joined_with(rest, '/') =~= Seq::<char>::empty());
        assert(joined_with(parts, '/') =~= parts[0] + seq!['/']);
    } else {
        assert(rest =~= segments.drop_first().push(Seq::empty()));
        ends_in_slash(segments.drop_first());
    }
}

/// A path in which a dot or two dots stand for a segment leads nowhere.
pub proof fn dots_lead_nowhere(dir: Seq<char>, segments: Seq<Seq<char>>, at: int)
    requires
        0 <= at < segments.len(),
        segments[at] == seq!['.'] || segments[at] == seq!['.', '.'],
        forall|i: int|
            0 <= i < segments.len() ==> (#[trigger] segments[i]).len() > 0 && !segments[i].contains(
                '/',
            ),
    ensures
        file_path_spec(dir, seq!['/'] + joined_with(segments, '/')) is None,
{
    let path = joined_with(segments, '/');
    slash_goes(path);
    joined_starts_with(segments);
    assert(segments[0].contains(segments[0][0]));
    nothing_goes(path);
    joined_parts_are_found(segments, '/');
    all_are_filled(segments);
    assert(!is_safe_segment(segments[at]));
}

/// A path grows by a segment with one slash in front of it, but at its start
/// and behind a slash.
pub proof fn segments_follow_a_slash(path: Seq<char>, segments: Seq<Seq<char>>, segment: Seq<char>)
    ensures
        pushed_all(path, Seq::empty()) == path,
        ({
            let before = pushed_all(path, segments);
            let after = pushed_all(path, segments.push(segment));
            &&& before.len() > 0 && before.last() != '/' ==> after == before + seq!['/'] + segment
            &&& before.len() == 0 || before.last() == '/' ==> after == before + segment
        }),
{
    assert(segments.push(segment).drop_last() =~= segments);
}

/// The extension of a file is what stands behind the last dot of its name.
pub proof fn extensions_follow_the_last_dot(
    front: Seq<char>,
    stem: Seq<char>,
    ext: Seq<char>,
)
    requires
        stem.len() > 0,
        !stem.contains('/'),
        ext.len() > 0,
        !ext.contains('/'),
        !ext.contains('.'),
    ensures
        extension(front + seq!['/'] + stem + seq!['.'] + ext) == Some(ext),
{
    let path = front + seq!['/'] + stem + seq!['.'] + ext;
    let name = stem + seq!['.'] + ext;
    assert(ext.contains(ext.last()));
    assert(path.last() == ext.last());
    assert(without_last_steps(path) == path);
    let slash = front.len() as int;
    the_last_place_is_found(path, '/', path.len() as int);
    assert(path[slash] == '/');
    assert forall|i: int| slash < i < path.len() implies path[i] != '/' by {
        if i <= slash + stem.len() {
            assert(path[i] == stem[i - slash - 1]);
            assert(stem.contains(stem[i - slash - 1]));
        } else if i > slash + stem.len() + 1 {
            assert(path[i] == ext[i - slash - stem.len() - 2]);
            assert(ext.contains(ext[i - slash - stem.len() - 2]));
        }
    }
    assert(last_at(path, '/', path.len() as int) == Some(slash));
    assert(path.skip(slash + 1) =~= name);
    assert(file_name(path) == name);
    let dot = stem.len() as int;
    the_last_place_is_found(name, '.', name.len() as int);
    assert(name[dot] == '.');
    assert forall|i: int| dot < i < name.len() implies name[i] != '.' by {
        assert(name[i] == ext[i - dot - 1]);
        assert(ext.contains(ext[i - dot - 1]));
    }
    assert(last_at(name, '.', name.len() as int) == Some(dot));
    assert(name.skip(dot + 1) =~= ext);
    if name == seq!['.', '.'] {
        assert(name[1] == ext[0]);
        assert(ext.contains(ext[0]));
    }
}

/// What a file is sent as goes by its extension.
pub proof fn extensions_tell_the_type(path: Seq<char>)
    ensures
        extension(path) == Some("html"@) || extension(path) == Some("htm"@) ==> content_type_spec(
            path,
        ) == "text/html; charset=utf-8"@,
        extension(path) == Some("css"@) ==> content_type_spec(path) == "text/css; charset=utf-8"@,
        extension(path) == Some("js"@) || extension(path) == Some("mjs"@) ==> content_type_spec(
            path,
        ) == "application/javascript; charset=utf-8"@,
        extension(path) == Some("json"@) ==> content_type_spec(path)
            == "application/json; charset=utf-8"@,
        extension(path) == Some("svg"@) ==> content_type_spec(path) == "image/svg+xml"@,
        extension(path) == Some("png"@) ==> content_type_spec(path) == "image/png"@,
        extension(path) == Some("jpg"@) || extension(path) == Some("jpeg"@) ==> content_type_spec(
            path,
        ) == "image/jpeg"@,
        extension(path) == Some("webp"@) ==> content_type_spec(path) == "image/webp"@,
        extension(path) == Some("txt"@) ==> content_type_spec(path) == "text/plain; charset=utf-8"@,
        extension(path) is None ==> content_type_spec(path) == "application/octet-stream"@,
        extension(path) matches Some(ext) ==> (!seq![
            "html"@,
            "htm"@,
            "css"@,
            "js"@,
            "mjs"@,
            "json"@,
            "svg"@,
            "png"@,
            "jpg"@,
            "jpeg"@,
            "webp"@,
            "txt"@,
        ].contains(ext) ==> content_type_spec(path) == "application/octet-stream"@),
{
    reveal_strlit("html");
    reveal_strlit("htm");
    reveal_strlit("css");
    reveal_strlit("js");
    reveal_strlit("mjs");
    reveal_strlit("json");
    reveal_strlit("svg");
    reveal_strlit("png");
    reveal_strlit("jpg");
    reveal_strlit("jpeg");
    reveal_strlit("webp");
    reveal_strlit("txt");
    assert("html"@[0] == 'h');
    assert("htm"@[0] == 'h');
    assert("css"@[0] == 'c');
    assert("js"@.len() == 2);
    assert("mjs"@[0] == 'm');
    assert("json"@[0] == 'j' && "json"@[1] == 's' && "json"@.len() == 4);
    assert("svg"@[0] == 's');
    assert("png"@[0] == 'p' && "png"@[1] == 'n');
    assert("jpg"@[0] == 'j' && "jpg"@[1] == 'p' && "jpg"@.len() == 3);
    assert("jpeg"@[0] == 'j' && "jpeg"@[1] == 'p' && "jpeg"@.len() == 4);
    assert("webp"@[0] == 'w');
    assert("txt"@[0] == 't');
    let known = seq![
        "html"@,
        "htm"@,
        "css"@,
        "js"@,
        "mjs"@,
        "json"@,
        "svg"@,
        "png"@,
        "jpg"@,
        "jpeg"@,
        "webp"@,
        "txt"@,
    ];
    assert(known[0] == "html"@);
    assert(known[1] == "htm"@);
    assert(known[2] == "css"@);
    assert(known[3] == "js"@);
    assert(known[4] == "mjs"@);
    assert(known[5] == "json"@);
    assert(known[6] == "svg"@);
    assert(known[7] == "png"@);
    assert(known[8] == "jpg"@);
    assert(known[9] == "jpeg"@);
    assert(known[10] == "webp"@);
    assert(known[11] == "txt"@);
}

} // verus!
