//! Serving files to strangers.

use vstd::prelude::*;
use vstd::string::*;

use crate::config::parts::{header_views, HeaderKey, HeaderPair};
use crate::hysteria2::masquerade::{
    html_masquerade_response, html_page, not_found_masquerade_response, not_found_page,
    MasqueradeResponse, Page, MAX_MASQUERADE_FILE_SIZE,
};
use crate::text::{
    char_rows, chars_of, find_last, last_at, leading_end, maybe_view, next_at_bounds, same_chars,
    same_text, split, split_from, split_spec, text_of, without_leading,
};

verus! {

/// The parts of a row that are not empty.
pub open spec fn filled_parts(parts: Seq<Seq<char>>) -> Seq<Seq<char>>
    decreases parts.len(),
{
    if parts.len() == 0 {
        Seq::empty()
    } else if parts.last().len() == 0 {
        filled_parts(parts.drop_last())
    } else {
        filled_parts(parts.drop_last()).push(parts.last())
    }
}

/// A segment that leads neither up nor to the root: not empty, no dot alone,
/// and no pair of dots.
pub open spec fn is_safe_segment(segment: Seq<char>) -> bool {
    segment.len() > 0 && segment != seq!['.'] && segment != seq!['.', '.'] && segment[0] != '/'
        && forall|i: int|
        0 <= i < split_spec(segment, '/').len() ==> #[trigger] split_spec(segment, '/')[i] != seq![
            '.',
            '.',
        ]
}

/// A path one segment longer.
pub open spec fn pushed(path: Seq<char>, segment: Seq<char>) -> Seq<char> {
    if path.len() == 0 || path.last() == '/' {
        path + segment
    } else {
        path + seq!['/'] + segment
    }
}

pub open spec fn pushed_all(path: Seq<char>, segments: Seq<Seq<char>>) -> Seq<char>
    decreases segments.len(),
{
    if segments.len() == 0 {
        path
    } else {
        pushed(pushed_all(path, segments.drop_last()), segments.last())
    }
}

/// The segments of a request's path.
pub open spec fn request_segments(request_path: Seq<char>) -> Seq<Seq<char>> {
    filled_parts(split_spec(without_leading(request_path, '/'), '/'))
}

pub open spec fn all_safe(segments: Seq<Seq<char>>) -> bool {
    forall|i: int| 0 <= i < segments.len() ==> is_safe_segment(#[trigger] segments[i])
}

/// The file that a path stands for, under `dir`: a path that ends in a slash
/// stands for the index of a directory. None where a segment is not safe.
pub open spec fn file_path_spec(dir: Seq<char>, request_path: Seq<char>) -> Option<Seq<char>> {
    let inner = without_leading(request_path, '/');
    let segments = request_segments(request_path);
    if !all_safe(segments) {
        None
    } else if inner.len() == 0 || inner.last() == '/' {
        Some(pushed(pushed_all(dir, segments), "index.html"@))
    } else {
        Some(pushed_all(dir, segments))
    }
}

pub fn safe_path_segment(segment: &Vec<char>) -> (safe: bool)
    ensures
        safe == is_safe_segment(segment@),
{
    let dot: [char; 1] = ['.'];
    let dots: [char; 2] = ['.', '.'];
    assert(dot@ =~= seq!['.']);
    assert(dots@ =~= seq!['.', '.']);
    if segment.len() == 0 || same_chars(segment.as_slice(), &dot) || same_chars(
        segment.as_slice(),
        &dots,
    ) || segment[0] == '/' {
        return false;
    }
    let parts = split(segment.as_slice(), '/');
    let ghost rows = split_spec(segment@, '/');
    let mut i: usize = 0;
    while i < parts.len()
        invariant
            i <= parts@.len(),
            char_rows(parts@) == rows,
            rows == split_spec(segment@, '/'),
            dots@ == seq!['.', '.'],
            forall|j: int| 0 <= j < i ==> #[trigger] rows[j] != seq!['.', '.'],
        decreases parts@.len() - i,
    {
        assert(rows[i as int] == parts@[i as int]@);
        if same_chars(parts[i].as_slice(), &dots) {
            return false;
        }
        i += 1;
    }
    assert(rows.len() == parts@.len());
    true
}

fn push_segment(path: &mut Vec<char>, segment: &[char])
    ensures
        final(path)@ == pushed(old(path)@, segment@),
{
    if path.len() > 0 && path[path.len() - 1] != '/' {
        path.push('/');
    }
    let ghost start = path@;
    let mut i: usize = 0;
    while i < segment.len()
        invariant
            i <= segment@.len(),
            path@ == start + segment@.take(i as int),
        decreases segment@.len() - i,
    {
        path.push(segment[i]);
        i += 1;
        assert(path@ =~= start + segment@.take(i as int));
    }
    assert(path@ =~= start + segment@);
    assert(path@ =~= pushed(old(path)@, segment@));
}

/// The file that a request's path stands for.
pub fn masquerade_file_path(dir: &str, request_path: &str) -> (path: Option<String>)
    ensures
        maybe_view(path) == file_path_spec(dir@, request_path@),
{
    let whole = chars_of(request_path);
    let start: usize = leading_end(whole.as_slice(), '/');
    let mut inner: Vec<char> = Vec::new();
    let mut i: usize = start;
    while i < whole.len()
        invariant
            start <= i <= whole@.len(),
            inner@ == whole@.subrange(start as int, i as int),
        decreases whole@.len() - i,
    {
        inner.push(whole[i]);
        i += 1;
        assert(inner@ =~= whole@.subrange(start as int, i as int));
    }
    assert(inner@ =~= without_leading(request_path@, '/'));
    let parts = split(inner.as_slice(), '/');
    let ghost rows = split_spec(inner@, '/');
    let mut path = chars_of(dir);
    let mut k: usize = 0;
    assert(rows.take(0) =~= Seq::<Seq<char>>::empty());
    while k < parts.len()
        invariant
            k <= parts@.len(),
            char_rows(parts@) == rows,
            rows == split_spec(inner@, '/'),
            inner@ == without_leading(request_path@, '/'),
            all_safe(filled_parts(rows.take(k as int))),
            path@ == pushed_all(dir@, filled_parts(rows.take(k as int))),
        decreases parts@.len() - k,
    {
        let ghost before = filled_parts(rows.take(k as int));
        assert(rows[k as int] == parts@[k as int]@);
        assert(rows.take(k + 1).drop_last() =~= rows.take(k as int));
        assert(rows.take(k + 1).last() == rows[k as int]);
        if parts[k].len() > 0 {
            if !safe_path_segment(&parts[k]) {
                proof {
                    unsafe_part_stays(rows, k + 1, rows.len() as int, before.len() as int);
                    assert(rows.take(rows.len() as int) =~= rows);
                }
                return None;
            }
            push_segment(&mut path, parts[k].as_slice());
            assert(filled_parts(rows.take(k + 1)).drop_last() =~= before);
        }
        k += 1;
    }
    assert(rows.take(k as int) =~= rows);
    if inner.len() == 0 || inner[inner.len() - 1] == '/' {
        let index = chars_of("index.html");
        push_segment(&mut path, index.as_slice());
    }
    let text = text_of(path.as_slice(), 0, path.len());
    assert(text@ =~= path@);
    Some(text)
}

proof fn unsafe_part_stays(rows: Seq<Seq<char>>, count: int, total: int, at: int)
    requires
        0 <= count <= total <= rows.len(),
        0 <= at < filled_parts(rows.take(count)).len(),
        !is_safe_segment(filled_parts(rows.take(count))[at]),
    ensures
        !all_safe(filled_parts(rows.take(total))),
    decreases total - count,
{
    if count < total {
        assert(rows.take(count + 1).drop_last() =~= rows.take(count));
        unsafe_part_stays(rows, count + 1, total, at);
    }
}

proof fn split_parts_hold_no_separator(s: Seq<char>, c: char, at: int, part: int)
    requires
        0 <= at <= s.len(),
        0 <= part < split_from(s, c, at).len(),
    ensures
        !split_from(s, c, at)[part].contains(c),
    decreases s.len() - at,
{
    next_at_bounds(s, c, at);
    let end = crate::text::next_at(s, c, at);
    if end < s.len() {
        if part > 0 {
            split_parts_hold_no_separator(s, c, end + 1, part - 1);
        }
    }
}

proof fn filled_parts_are_parts(parts: Seq<Seq<char>>, i: int)
    requires
        0 <= i < filled_parts(parts).len(),
    ensures
        exists|j: int| 0 <= j < parts.len() && filled_parts(parts)[i] == #[trigger] parts[j],
    decreases parts.len(),
{
    if parts.len() > 0 {
        let front = parts.drop_last();
        if i < filled_parts(front).len() {
            filled_parts_are_parts(front, i);
            let j = choose|j: int|
                0 <= j < front.len() && filled_parts(front)[i] == #[trigger] front[j];
            assert(parts[j] == front[j]);
        } else {
            assert(parts[parts.len() - 1] == parts.last());
        }
    }
}

/// A file that is served lies under the directory: its path is that of the
/// directory with segments behind it, none of which holds a slash or leads up.
pub proof fn served_files_stay_inside(dir: Seq<char>, request_path: Seq<char>)
    ensures
        file_path_spec(dir, request_path) matches Some(path) ==> exists|segments: Seq<Seq<char>>|
            {
                &&& path == #[trigger] pushed_all(dir, segments)
                &&& forall|i: int|
                    0 <= i < segments.len() ==> !(#[trigger] segments[i]).contains('/')
                        && segments[i] != seq!['.', '.'] && segments[i].len() > 0
            },
{
    let inner = without_leading(request_path, '/');
    let rows = split_spec(inner, '/');
    let segments = request_segments(request_path);
    if all_safe(segments) {
        assert forall|i: int| 0 <= i < segments.len() implies !(#[trigger] segments[i]).contains(
            '/',
        ) && segments[i] != seq!['.', '.'] && segments[i].len() > 0 by {
            filled_parts_are_parts(rows, i);
            let j = choose|j: int| 0 <= j < rows.len() && segments[i] == #[trigger] rows[j];
            split_parts_hold_no_separator(inner, '/', 0, j);
            assert(is_safe_segment(segments[i]));
        }
        if inner.len() == 0 || inner.last() == '/' {
            reveal_strlit("index.html");
            let index = "index.html"@;
            let longer = segments.push(index);
            assert(longer.drop_last() =~= segments);
            assert(!index.contains('/')) by {
                assert forall|i: int| 0 <= i < index.len() implies index[i] != '/' by {}
            }
            assert(pushed_all(dir, longer) == pushed(pushed_all(dir, segments), index));
            assert forall|i: int| 0 <= i < longer.len() implies !(#[trigger] longer[i]).contains(
                '/',
            ) && longer[i] != seq!['.', '.'] && longer[i].len() > 0 by {
                if i < segments.len() {
                    assert(longer[i] == segments[i]);
                } else {
                    assert(longer[i].len() == 10);
                }
            }
        } else {
            assert(pushed_all(dir, segments) == file_path_spec(dir, request_path)->0);
        }
    }
}

/// A path without the slashes, and the dots behind a slash, that it ends in:
/// they name nothing further.
pub open spec fn without_last_steps(path: Seq<char>) -> Seq<char>
    decreases path.len(),
{
    if path.len() >= 1 && path.last() == '/' {
        without_last_steps(path.drop_last())
    } else if path.len() >= 2 && path.last() == '.' && path[path.len() - 2] == '/' {
        without_last_steps(path.take(path.len() - 2))
    } else {
        path
    }
}

/// The last name of a path.
pub open spec fn file_name(path: Seq<char>) -> Seq<char> {
    let named = without_last_steps(path);
    match last_at(named, '/', named.len() as int) {
        Some(slash) => named.skip(slash + 1),
        None => named,
    }
}

fn drop_last_steps(path: &mut Vec<char>)
    ensures
        final(path)@ == without_last_steps(old(path)@),
{
    loop
        invariant
            without_last_steps(path@) == without_last_steps(old(path)@),
        decreases path@.len(),
    {
        let len: usize = path.len();
        if len >= 1 && path[len - 1] == '/' {
            path.pop();
            assert(path@.len() == len - 1);
        } else if len >= 2 && path[len - 1] == '.' && path[len - 2] == '/' {
            let ghost before = path@;
            path.pop();
            path.pop();
            assert(path@ =~= before.take(len - 2));
        } else {
            return ;
        }
    }
}

/// What stands behind the last dot of a file's name, unless the dot is its
/// first character.
pub open spec fn extension(path: Seq<char>) -> Option<Seq<char>> {
    let name = file_name(path);
    match last_at(name, '.', name.len() as int) {
        Some(dot) => if dot == 0 || name == seq!['.', '.'] {
            None
        } else {
            Some(name.skip(dot + 1))
        },
        None => None,
    }
}

fn extension_of(path: &str) -> (found: Option<String>)
    ensures
        maybe_view(found) == extension(path@),
{
    let mut whole = chars_of(path);
    drop_last_steps(&mut whole);
    let mut name: Vec<char> = Vec::new();
    let start: usize = match find_last(whole.as_slice(), '/') {
        Some(slash) => slash + 1,
        None => 0,
    };
    let mut i: usize = start;
    while i < whole.len()
        invariant
            start <= i <= whole@.len(),
            name@ == whole@.subrange(start as int, i as int),
        decreases whole@.len() - i,
    {
        name.push(whole[i]);
        i += 1;
        assert(name@ =~= whole@.subrange(start as int, i as int));
    }
    assert(name@ =~= file_name(path@));
    let dots: [char; 2] = ['.', '.'];
    assert(dots@ =~= seq!['.', '.']);
    match find_last(name.as_slice(), '.') {
        Some(dot) => {
            if dot == 0 || same_chars(name.as_slice(), &dots) {
                return None;
            }
            let text = text_of(name.as_slice(), dot + 1, name.len());
            assert(text@ =~= name@.skip(dot + 1));
            Some(text)
        },
        None => None,
    }
}

/// The media type of a file, by its extension.
pub open spec fn content_type_spec(path: Seq<char>) -> Seq<char> {
    match extension(path) {
        None => "application/octet-stream"@,
        Some(ext) => if ext == "html"@ || ext == "htm"@ {
            "text/html; charset=utf-8"@
        } else if ext == "css"@ {
            "text/css; charset=utf-8"@
        } else if ext == "js"@ || ext == "mjs"@ {
            "application/javascript; charset=utf-8"@
        } else if ext == "json"@ {
            "application/json; charset=utf-8"@
        } else if ext == "svg"@ {
            "image/svg+xml"@
        } else if ext == "png"@ {
            "image/png"@
        } else if ext == "jpg"@ || ext == "jpeg"@ {
            "image/jpeg"@
        } else if ext == "webp"@ {
            "image/webp"@
        } else if ext == "txt"@ {
            "text/plain; charset=utf-8"@
        } else {
            "application/octet-stream"@
        },
    }
}

pub fn content_type_for_path(path: &str) -> (content_type: &'static str)
    ensures
        content_type@ == content_type_spec(path@),
{
    match extension_of(path) {
        None => "application/octet-stream",
        Some(text) => {
            let ext: &str = text.as_str();
            if same_text(ext, "html") || same_text(ext, "htm") {
                "text/html; charset=utf-8"
            } else if same_text(ext, "css") {
                "text/css; charset=utf-8"
            } else if same_text(ext, "js") || same_text(ext, "mjs") {
                "application/javascript; charset=utf-8"
            } else if same_text(ext, "json") {
                "application/json; charset=utf-8"
            } else if same_text(ext, "svg") {
                "image/svg+xml"
            } else if same_text(ext, "png") {
                "image/png"
            } else if same_text(ext, "jpg") || same_text(ext, "jpeg") {
                "image/jpeg"
            } else if same_text(ext, "webp") {
                "image/webp"
            } else if same_text(ext, "txt") {
                "text/plain; charset=utf-8"
            } else {
                "application/octet-stream"
            }
        },
    }
}

/// What is found at the path of a file.
pub enum FileFound {
    Missing,
    /// Something that is no file.
    Other,
    /// A file of this many bytes.
    File(u64),
}

/// How a request for a file is answered before the file is read; none where it
/// is to be read.
pub fn file_refusal(found: FileFound) -> (refusal: Option<MasqueradeResponse>)
    ensures
        match found {
            FileFound::Missing | FileFound::Other => refusal matches Some(response)
                && response.is(not_found_page()),
            FileFound::File(len) => if len > 0x40_0000 {
                refusal matches Some(response) && response.is(
                    html_page(413, "payload too large\n"@),
                )
            } else {
                refusal is None
            },
        },
{
    match found {
        FileFound::Missing | FileFound::Other => Some(not_found_masquerade_response()),
        FileFound::File(len) => {
            if len > MAX_MASQUERADE_FILE_SIZE {
                return Some(html_masquerade_response(413, "payload too large\n"));
            }
            None
        },
    }
}

/// The answer with a file that was read.
pub fn file_masquerade_response(path: &str, body: Vec<u8>) -> (response: MasqueradeResponse)
    ensures
        response.is(
            (Page {
                status: 200,
                headers: seq![
                    HeaderKey { name: "content-type"@, value: content_type_spec(path@) },
                ],
                body: body@,
            }),
        ),
{
    let mut headers: Vec<HeaderPair> = Vec::new();
    headers.push(
        HeaderPair {
            name: "content-type".to_owned(),
            value: content_type_for_path(path).to_owned(),
        },
    );
    let response = MasqueradeResponse { status: 200, headers, body };
    assert(header_views(response.headers@) =~= seq![
        HeaderKey { name: "content-type"@, value: content_type_spec(path@) },
    ]);
    response
}

} // verus!
