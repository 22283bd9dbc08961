//! Call hierarchies.

use std::sync::Arc;
use vstd::prelude::*;
use vstd::string::*;
use vstd::utf8::*;
use crate::element;
use crate::element::ScriptElementKind;
use crate::error::TscError;
use crate::language_server;
use crate::language_server::Inner;
use crate::lsp;
use crate::lsp::{Range, SymbolKind};
use crate::navigation;
use crate::navigation::tags_of;
use crate::normalize;
use crate::normalize::{normalize_name, Named};
use crate::span;
use crate::span::TextSpan;
use crate::specifier;
use crate::specifier::ModuleSpecifier;
use crate::specifier_map::TscSpecifierMap;
use crate::strings;
use crate::strings::{characters, contains_char, slice_text, split_first, starts_with};
use crate::sync::share;
use crate::text;
use crate::text::LineIndex;
use crate::views;

verus! {

/// A path that every system splits alike: it opens with a slash, no backslash stands in it, and each
/// slash has a component behind it that is neither `.` nor `..`.
pub open spec fn is_normal_path(path: Seq<char>) -> bool {
    &&& path.len() > 0
    &&& path[0] == '/'
    &&& !path.contains('\\')
    &&& forall|i: int|
        0 <= i < path.len() && path[i] == '/' ==> #[trigger] opens_component(path, i + 1)
}

/// A component that is neither empty nor `.` nor `..` begins at a place.
pub open spec fn opens_component(path: Seq<char>, i: int) -> bool {
    &&& !ends_at(path, i)
    &&& path[i] == '.' ==> !ends_at(path, i + 1)
    &&& path[i] == '.' && path[i + 1] == '.' ==> !ends_at(path, i + 2)
}

/// The component before a place ends there.
pub open spec fn ends_at(path: Seq<char>, i: int) -> bool {
    i >= path.len() || path[i] == '/'
}

/// A path that every system splits alike, or the root directory.
pub open spec fn is_rooted(path: Seq<char>) -> bool {
    is_normal_path(path) || path == seq!['/']
}

/// Where the last slash of a path stands.
pub open spec fn last_slash(path: Seq<char>) -> int
    decreases path.len(),
{
    if path.len() == 0 || path.last() == '/' {
        path.len() - 1
    } else {
        last_slash(path.drop_last())
    }
}

/// The last component of a normal path.
pub open spec fn last_component(path: Seq<char>) -> Seq<char> {
    path.skip(last_slash(path) + 1)
}

/// A normal path without its last component.
pub open spec fn without_last_component(path: Seq<char>) -> Seq<char> {
    if last_slash(path) == 0 {
        seq!['/']
    } else {
        path.subrange(0, last_slash(path))
    }
}

/// A path from below another one on, where it lies there.
pub open spec fn below(path: Seq<char>, base: Seq<char>) -> Option<Seq<char>> {
    if path == base {
        Some(Seq::empty())
    } else if base == seq!['/'] {
        Some(path.skip(1))
    } else if base.push('/').is_prefix_of(path) {
        Some(path.skip((base.len() + 1) as int))
    } else {
        None
    }
}

proof fn lemma_last_slash(path: Seq<char>)
    requires
        path.len() > 0,
        path[0] == '/',
    ensures
        0 <= last_slash(path) < path.len(),
        path[last_slash(path)] == '/',
    decreases path.len(),
{
    if path.last() != '/' {
        lemma_last_slash(path.drop_last());
    }
}

/// A normal path without its last component is normal too, or the root directory.
proof fn lemma_without_last_component(path: Seq<char>)
    requires
        is_normal_path(path),
    ensures
        is_rooted(without_last_component(path)),
{
    lemma_last_slash(path);
    let n = last_slash(path);
    if n > 0 {
        let directory = path.subrange(0, n);
        assert forall|i: int| 0 <= i < directory.len() && directory[i] == '/' implies
            #[trigger] opens_component(directory, i + 1) by {
            assert(opens_component(path, i + 1));
        }
        assert(!directory.contains('\\')) by {
            assert forall|i: int| 0 <= i < directory.len() implies directory[i] != '\\' by {
                assert(path.contains(path[i]));
            }
        }
    }
}

/// What stands in a URL before its query and its fragment.
pub open spec fn before_query(href: Seq<char>) -> Seq<char> {
    let head = href.subrange(0, strings::first_index(href, '#'));
    head.subrange(0, strings::first_index(head, '?'))
}

/// The host and the path in a file URL.
pub open spec fn host_and_path(href: Seq<char>) -> Seq<char> {
    before_query(href).skip(7)
}

/// The value of a hexadecimal digit.
pub open spec fn hex_value(c: char) -> Option<int> {
    if '0' <= c <= '9' {
        Some(c as int - '0' as int)
    } else if 'a' <= c <= 'f' {
        Some(c as int - 'a' as int + 10)
    } else if 'A' <= c <= 'F' {
        Some(c as int - 'A' as int + 10)
    } else {
        None
    }
}

/// The bytes of a part of a URL, with what is escaped there put back: a percent sign and two
/// hexadecimal digits are a byte.
pub open spec fn unescaped(t: Seq<char>) -> Seq<u8>
    decreases t.len(),
{
    if t.len() == 0 {
        Seq::empty()
    } else if t[0] == '%' && t.len() > 2 && hex_value(t[1]) is Some && hex_value(t[2]) is Some {
        seq![(hex_value(t[1])->0 * 16 + hex_value(t[2])->0) as u8] + unescaped(t.skip(3))
    } else {
        seq![t[0] as u8] + unescaped(t.skip(1))
    }
}

/// The text of the path that a file URL names, as every system with a path for it gives it. There is
/// none for a URL with a host, for one that begins with a drive, and for a path that is not text or
/// that systems split differently.
pub open spec fn path_in(href: Seq<char>) -> Option<Seq<char>> {
    let bytes = unescaped(host_and_path(href));
    let path = decode_utf8(bytes);
    if "file:///"@.is_prefix_of(href) && valid_utf8(bytes) && is_normal_path(path) && path.last()
        != ':' && path.last() != '|' && !(path.len() > 3 && path[2] == ':' && path[3] == '/') {
        Some(path)
    } else {
        None
    }
}

/// A drive stands alone, with its colon escaped or not.
pub open spec fn is_drive(t: Seq<char>) -> bool {
    &&& t.len() > 0
    &&& 'a' <= t[0] <= 'z' || 'A' <= t[0] <= 'Z'
    &&& t.len() == 2 && t[1] == ':' || t.len() == 4 && t[1] == '%' && t[2] == '3' && (t[3] == 'A'
        || t[3] == 'a')
}

/// An escaped slash or backslash stands in front.
pub open spec fn opens_with_separator(t: Seq<char>) -> bool {
    &&& t.len() > 2
    &&& t[0] == '%'
    &&& (t[1] == '2' && (t[2] == 'F' || t[2] == 'f')) || (t[1] == '5' && (t[2] == 'C' || t[2]
        == 'c'))
}

/// A file URL names something absolute on every system: without a host it is no drive alone, and with
/// a host its path begins with a component.
pub open spec fn is_absolute(href: Seq<char>) -> bool {
    let rest = host_and_path(href);
    let slash = strings::first_index(rest, '/');
    let path = rest.skip(slash + 1);
    &&& before_query(href).len() >= 7
    &&& slash < rest.len()
    &&& if slash == 0 {
        !is_drive(path)
    } else {
        path.len() > 0 && path[0] != '/' && !opens_with_separator(path)
    }
}

/// Whether a file URL names something absolute on every system.
fn names_absolute(href: &str) -> (r: bool)
    ensures
        r == is_absolute(href@),
{
    let (head, _) = split_first(href, '#');
    let (head, _) = split_first(head.as_str(), '?');
    let chars = characters(head.as_str());
    let len: usize = chars.len();
    if len < 7 {
        return false;
    }
    let rest = slice_text(&chars, 7, len);
    assert(rest@ =~= host_and_path(href@));
    let (host, path) = split_first(rest.as_str(), '/');
    let path = match path {
        Some(path) => characters(path.as_str()),
        None => return false,
    };
    if host.as_str().is_empty() {
        let drive = path.len() > 0 && (('a' <= path[0] && path[0] <= 'z') || ('A' <= path[0]
            && path[0] <= 'Z'));
        let colon = (path.len() == 2 && path[1] == ':') || (path.len() == 4 && path[1] == '%'
            && path[2] == '3' && (path[3] == 'A' || path[3] == 'a'));
        !(drive && colon)
    } else {
        let separator = path.len() > 2 && path[0] == '%' && ((path[1] == '2' && (path[2] == 'F'
            || path[2] == 'f')) || (path[1] == '5' && (path[2] == 'C' || path[2] == 'c')));
        path.len() > 0 && path[0] != '/' && !separator
    }
}

/// `url::Url::to_file_path`, on a file URL given by its serialization, with the path given back as a
/// text: the text itself, or where the path is not Unicode one with replacement characters, as an
/// error. Whether there is a path is up to the system at hand. On Windows there is one only for a
/// drive or a host; elsewhere the path is that in the URL with what is escaped there put back, and
/// Redox writes `file:` before it. What is no absolute path on Windows is left out: the function
/// asserts that what it gives is one. The path of a drive or of a host, and one that systems split
/// differently, is left unsaid.
#[verifier::external_body]
fn to_file_path(href: &str) -> (r: Option<Result<String, String>>)
    requires
        specifier::is_url(href@),
        specifier::scheme_of(href@) == "file"@,
        is_absolute(href@),
    ensures
        r matches Some(found) ==> (path_in(href@) matches Some(path) ==> found matches Ok(text) && (
        text@ == path || text@ == "file:"@ + path)),
{
    let path = url::Url::parse(href).unwrap().to_file_path().ok()?;
    let text = path.into_os_string().into_string();
    Some(text.map_err(|path| path.to_string_lossy().to_string()))
}

/// `std::path::Path::file_name`: the last component of a path. Paths are split in the way of the
/// system at hand, so the result is stated only for those that every system splits alike.
#[verifier::external_body]
fn file_name(path: &str) -> (r: Option<String>)
    ensures
        is_normal_path(path@) ==> views::opt_view(r) == Some(last_component(path@)),
{
    std::path::Path::new(path).file_name().map(|name| name.to_string_lossy().to_string())
}

/// `std::path::Path::parent`: a path without its last component. Paths are split in the way of the
/// system at hand, so the result is stated only for those that every system splits alike.
#[verifier::external_body]
fn parent(path: &str) -> (r: Option<String>)
    ensures
        is_normal_path(path@) ==> views::opt_view(r) == Some(without_last_component(path@)),
{
    std::path::Path::new(path).parent().map(|path| path.to_string_lossy().to_string())
}

/// `std::path::Path::strip_prefix`: a path from below another one on, where it lies there. Paths are
/// split in the way of the system at hand, so the result is stated only for those that every system
/// splits alike; below any other one, what is left of such a path is its end.
#[verifier::external_body]
fn strip_prefix(path: &str, base: &str) -> (r: Option<String>)
    ensures
        is_rooted(path@) && is_rooted(base@) ==> views::opt_view(r) == below(path@, base@),
        is_rooted(path@) ==> (r matches Some(rest) ==> rest@.is_suffix_of(path@)),
{
    let rest = std::path::Path::new(path).strip_prefix(base).ok()?;
    Some(rest.to_string_lossy().to_string())
}

/// A path without the scheme that a system may write before it.
fn without_scheme(path: String) -> (r: String)
    ensures
        r@ == (if "file:/"@.is_prefix_of(path@) {
            path@.skip(5)
        } else {
            path@
        }),
{
    if starts_with(path.as_str(), "file:/") {
        let chars = characters(path.as_str());
        let len: usize = chars.len();
        proof {
            reveal_strlit("file:/");
        }
        let rest = slice_text(&chars, 5, len);
        assert(rest@ =~= path@.skip(5));
        rest
    } else {
        path
    }
}

/// The name of a file and the directory it is in.
#[derive(Debug)]
pub struct FilePlace {
    pub file_name: String,
    pub directory: String,
}

/// What a [`FilePlace`] holds.
pub struct FilePlaceView {
    pub file_name: Seq<char>,
    pub directory: Seq<char>,
}

impl View for FilePlace {
    type V = FilePlaceView;

    open spec fn view(&self) -> FilePlaceView {
        FilePlaceView { file_name: self.file_name@, directory: self.directory@ }
    }
}

/// The text of an optional root path.
pub open spec fn root_text(root: Option<&str>) -> Option<Seq<char>> {
    match root {
        Some(root) => Some(root@),
        None => None,
    }
}

/// A directory, taken from below the root where it lies there.
pub open spec fn shown_directory(directory: Seq<char>, root: Option<Seq<char>>) -> Seq<char> {
    match root {
        Some(root) => match below(directory, root) {
            Some(rest) => rest,
            None => directory,
        },
        None => directory,
    }
}

/// A root is missing, or every system splits it alike.
pub open spec fn is_clear_root(root: Option<Seq<char>>) -> bool {
    root matches Some(root) ==> is_rooted(root)
}

/// A place is that of the file at a normal path: its name is the last component, and its directory is
/// the rest, from below the root on where it lies there. For a root that systems split differently,
/// the directory is the end of the rest.
pub open spec fn is_place_of(
    place: FilePlaceView,
    path: Seq<char>,
    root: Option<Seq<char>>,
) -> bool {
    let directory = without_last_component(path);
    &&& place.file_name == last_component(path)
    &&& is_clear_root(root) ==> place.directory == shown_directory(directory, root)
    &&& place.directory.is_suffix_of(directory)
}

/// A place may be that of the file at a path: a normal path has one.
pub open spec fn may_be_place(
    place: Option<FilePlaceView>,
    path: Seq<char>,
    root: Option<Seq<char>>,
) -> bool {
    is_normal_path(path) ==> place is Some && is_place_of(place->0, path, root)
}

/// A place may be that of the file that a URL names. There is none for a URL that is no file URL or
/// that does not name something absolute on every system; else whether there is one is up to the
/// system, and it is that of the path in the URL.
pub open spec fn may_be_place_of_url(
    place: Option<FilePlaceView>,
    url: Seq<char>,
    root: Option<Seq<char>>,
) -> bool {
    place matches Some(place) ==> {
        &&& specifier::scheme_of(url) == "file"@
        &&& is_absolute(url)
        &&& path_in(url) matches Some(path) ==> is_place_of(place, path, root)
    }
}

impl FilePlace {
    /// The place of the file that a URL names; none where it is no file URL, where it does not name
    /// something absolute on every system, or where the system has no path for it.
    pub fn of_url(url: &ModuleSpecifier, maybe_root_path: Option<&str>) -> (r: Option<FilePlace>)
        ensures
            may_be_place_of_url(views::opt_view(r), url@, root_text(maybe_root_path)),
    {
        if !url.has_scheme("file") || !names_absolute(url.as_str()) {
            return None;
        }
        match to_file_path(url.as_str()) {
            Some(Ok(text)) => {
                proof {
                    if path_in(url@) is Some {
                        lemma_scheme_is_taken_off(text@, path_in(url@)->0);
                    }
                }
                FilePlace::of_path(without_scheme(text).as_str(), maybe_root_path)
            },
            Some(Err(text)) => {
                // A replacement character in such a text stands for bytes that the root does not have.
                let root_path = match maybe_root_path {
                    Some(root_path) => if contains_char(root_path, '\u{fffd}') {
                        None
                    } else {
                        Some(root_path)
                    },
                    None => None,
                };
                FilePlace::of_path(text.as_str(), root_path)
            },
            None => None,
        }
    }

    /// The place of the file at a path; none where the path has no last component.
    pub fn of_path(path: &str, maybe_root_path: Option<&str>) -> (r: Option<FilePlace>)
        ensures
            may_be_place(views::opt_view(r), path@, root_text(maybe_root_path)),
    {
        proof {
            if is_normal_path(path@) {
                lemma_without_last_component(path@);
                let directory = without_last_component(path@);
                assert(directory.subrange(0, directory.len() as int) =~= directory);
            }
        }
        match (file_name(path), parent(path)) {
            (Some(file_name), Some(parent_dir)) => {
                let directory = match maybe_root_path {
                    Some(root_path) => match strip_prefix(parent_dir.as_str(), root_path) {
                        Some(directory) => directory,
                        None => parent_dir,
                    },
                    None => parent_dir,
                };
                Some(FilePlace { file_name, directory })
            },
            _ => None,
        }
    }
}

/// Without the scheme that may be written before it, the text of a path is the path.
proof fn lemma_scheme_is_taken_off(text: Seq<char>, path: Seq<char>)
    requires
        is_normal_path(path),
        text == path || text == "file:"@ + path,
    ensures
        path == (if "file:/"@.is_prefix_of(text) {
            text.skip(5)
        } else {
            text
        }),
{
    reveal_strlit("file:");
    reveal_strlit("file:/");
    if text == path {
        if "file:/"@.is_prefix_of(text) {
            assert("file:/"@[0] == text.subrange(0, 6)[0]);
        }
    } else {
        assert(text.subrange(0, 6) =~= "file:/"@);
        assert(text.skip(5) =~= path);
    }
}

/// In a file URL without a host, a query or a fragment, the path stands behind the scheme as it is,
/// where it is of ASCII characters and none of them is a percent sign.
pub proof fn law_plain_url_names_its_path(path: Seq<char>)
    requires
        is_normal_path(path),
        is_ascii_chars(path),
        !path.contains('%'),
        !path.contains('?'),
        !path.contains('#'),
        path.last() != ':',
        path.last() != '|',
        !(path.len() > 3 && path[2] == ':' && path[3] == '/'),
    ensures
        path_in("file://"@ + path) == Some(path),
{
    reveal_strlit("file://");
    reveal_strlit("file:///");
    let href = "file://"@ + path;
    assert forall|i: int| 0 <= i < href.len() implies href[i] != '#' && href[i] != '?' by {
        if i >= 7 {
            assert(href[i] == path[i - 7]);
            assert(path.contains(path[i - 7]));
        }
    }
    strings::lemma_first_index(href, '#', href.len() as int);
    assert(href.subrange(0, href.len() as int) =~= href);
    strings::lemma_first_index(href, '?', href.len() as int);
    assert(host_and_path(href) =~= path);
    assert(href.subrange(0, 8) =~= "file:///"@);
    lemma_unescaped_plain(path);
    is_ascii_chars_encode_utf8(path);
    assert(unescaped(path) =~= encode_utf8(path));
    encode_utf8_valid_utf8(path);
    encode_utf8_decode_utf8(path);
}

/// Where nothing is escaped, the characters are the bytes.
proof fn lemma_unescaped_plain(t: Seq<char>)
    requires
        !t.contains('%'),
    ensures
        unescaped(t) == Seq::new(t.len(), |i: int| t[i] as u8),
    decreases t.len(),
{
    if t.len() > 0 {
        assert(t.contains(t[0]));
        assert forall|i: int| 0 <= i < t.skip(1).len() implies t.skip(1)[i] != '%' by {
            assert(t.contains(t[i + 1]));
        }
        lemma_unescaped_plain(t.skip(1));
        assert(unescaped(t) =~= Seq::new(t.len(), |i: int| t[i] as u8));
    } else {
        assert(unescaped(t) =~= Seq::new(t.len(), |i: int| t[i] as u8));
    }
}

/// An item of a call hierarchy.
#[derive(Debug)]
pub struct CallHierarchyItem {
    pub name: String,
    pub kind: ScriptElementKind,
    pub kind_modifiers: Option<String>,
    pub file: String,
    pub span: TextSpan,
    pub selection_span: TextSpan,
    pub container_name: Option<String>,
}

impl Named for CallHierarchyItem {
    open spec fn file_names(&self) -> Seq<Seq<char>> {
        seq![self.file@]
    }

    open spec fn same_but_names(&self, other: &Self) -> bool {
        &&& self.name == other.name
        &&& self.kind == other.kind
        &&& self.kind_modifiers == other.kind_modifiers
        &&& self.span == other.span
        &&& self.selection_span == other.selection_span
        &&& self.container_name == other.container_name
    }

    proof fn lemma_same(&self) {
    }

    fn normalize(&mut self, map: &mut TscSpecifierMap) -> (r: Result<(), TscError>) {
        normalize_name(&mut self.file, map)
    }
}

impl CallHierarchyItem {
    /// The spans end at offsets that can be counted.
    pub open spec fn fits(self) -> bool {
        self.span.fits() && self.selection_span.fits()
    }

    /// The item is a whole file.
    pub open spec fn is_file(self) -> bool {
        self.kind == ScriptElementKind::ScriptElement || (self.kind
            == ScriptElementKind::ModuleElement && self.selection_span.start == 0)
    }

    /// The item for the client, when the file its URL names is at the given place. A whole file is
    /// named by its file, or else by its URL.
    pub open spec fn item_at(
        self,
        lines: Seq<text::LineView>,
        language_server: Inner,
        place: Option<FilePlaceView>,
    ) -> lsp::CallHierarchyItemView {
        let uri = language_server::uri_or_invalid(language_server.url_map, self.file@);
        lsp::CallHierarchyItemView {
            name: if !self.is_file() {
                self.name@
            } else if place is Some {
                place->0.file_name
            } else {
                uri
            },
            kind: element::symbol_kind(self.kind),
            tags: match self.kind_modifiers {
                Some(modifiers) => navigation::symbol_tags(modifiers@),
                None => None,
            },
            detail: Some(
                if !self.is_file() {
                    match self.container_name {
                        Some(container_name) => container_name@,
                        None => Seq::empty(),
                    }
                } else if place is Some {
                    place->0.directory
                } else {
                    Seq::empty()
                },
            ),
            uri,
            range: span::range_of(self.span, lines),
            selection_range: span::range_of(self.selection_span, lines),
        }
    }

    /// The item is the one for the client, with a place that its file may have.
    pub open spec fn may_be_item(
        self,
        item: lsp::CallHierarchyItemView,
        lines: Seq<text::LineView>,
        language_server: Inner,
        root: Option<Seq<char>>,
    ) -> bool {
        exists|place: Option<FilePlaceView>|
            {
                &&& item == #[trigger] self.item_at(lines, language_server, place)
                &&& may_be_place_of_url(place, item.uri, root)
            }
    }

    /// The item for the client; none where there is no document for its file.
    pub fn try_resolve_call_hierarchy_item(
        &self,
        language_server: &Inner,
        maybe_root_path: Option<&str>,
    ) -> (r: Option<lsp::CallHierarchyItem>)
        requires
            self.fits(),
        ensures
            match specifier::parsed_url(self.file@) {
                Some(href) => match language_server.document(href) {
                    Some(document) => r matches Some(item) && self.may_be_item(
                        item@,
                        document.lines(),
                        *language_server,
                        root_text(maybe_root_path),
                    ),
                    None => r is None,
                },
                None => r is None,
            },
    {
        let target_specifier = match ModuleSpecifier::parse(self.file.as_str()) {
            Ok(specifier) => specifier,
            Err(_) => return None,
        };
        let target_asset_or_doc = match language_server.get_maybe_asset_or_document(
            &target_specifier,
        ) {
            Some(document) => document,
            None => return None,
        };
        Some(
            self.to_call_hierarchy_item(
                target_asset_or_doc.line_index(),
                language_server,
                maybe_root_path,
            ),
        )
    }

    /// The item for the client.
    pub fn to_call_hierarchy_item(
        &self,
        line_index: Arc<LineIndex>,
        language_server: &Inner,
        maybe_root_path: Option<&str>,
    ) -> (r: lsp::CallHierarchyItem)
        requires
            self.fits(),
        ensures
            self.may_be_item(r@, line_index@, *language_server, root_text(maybe_root_path)),
    {
        let uri = language_server.url_map.uri_or_invalid(self.file.as_str());
        let place = FilePlace::of_url(uri.as_url(), maybe_root_path);
        let ghost seen = views::opt_view(place);
        let item = self.to_item_at(share(&line_index), language_server, place);
        assert(item@ == self.item_at(line_index@, *language_server, seen));
        item
    }

    /// The item for the client, when the file its URL names is at the given place.
    pub fn to_item_at(
        &self,
        line_index: Arc<LineIndex>,
        language_server: &Inner,
        place: Option<FilePlace>,
    ) -> (r: lsp::CallHierarchyItem)
        requires
            self.fits(),
        ensures
            r@ == self.item_at(line_index@, *language_server, views::opt_view(place)),
    {
        let uri = language_server.url_map.uri_or_invalid(self.file.as_str());
        let (name, detail) = if self.is_source_file_item() {
            match place {
                Some(place) => (place.file_name, place.directory),
                None => (uri.as_url().as_str().to_owned(), String::new()),
            }
        } else {
            let detail = match &self.container_name {
                Some(container_name) => container_name.clone(),
                None => String::new(),
            };
            (self.name.clone(), detail)
        };
        let tags = match &self.kind_modifiers {
            Some(modifiers) => tags_of(modifiers.as_str()),
            None => None,
        };
        lsp::CallHierarchyItem {
            name,
            kind: SymbolKind::from(self.kind),
            tags,
            detail: Some(detail),
            uri: uri.into_url(),
            range: self.span.to_range(share(&line_index)),
            selection_range: self.selection_span.to_range(line_index),
        }
    }

    /// Whether the item is a whole file.
    fn is_source_file_item(&self) -> (r: bool)
        ensures
            r == self.is_file(),
    {
        self.kind == ScriptElementKind::ScriptElement || (self.kind
            == ScriptElementKind::ModuleElement && self.selection_span.start == 0)
    }
}

/// A whole file is shown by its name and its directory, from below the root on where it lies there, or
/// by its URL alone where the system has no path for it.
pub proof fn law_files_are_shown_by_their_path(
    item: CallHierarchyItem,
    shown: lsp::CallHierarchyItemView,
    lines: Seq<text::LineView>,
    language_server: Inner,
    root: Option<Seq<char>>,
    path: Seq<char>,
)
    requires
        item.kind == ScriptElementKind::ScriptElement || (item.kind
            == ScriptElementKind::ModuleElement && item.selection_span.start == 0),
        item.may_be_item(shown, lines, language_server, root),
        path_in(shown.uri) == Some(path),
        is_clear_root(root),
    ensures
        ({
            ||| shown.name == last_component(path) && shown.detail == Some(
                shown_directory(without_last_component(path), root),
            )
            ||| shown.name == shown.uri && shown.detail == Some(Seq::<char>::empty())
        }),
{
}

/// An item is shown at the place of its span, with the place of its name selected, in the document that
/// the client knows by the URL of its file. One that is no whole file is shown by its own name, with
/// the name of what holds it beside it.
pub proof fn law_items_are_shown_in_place(
    item: CallHierarchyItem,
    shown: lsp::CallHierarchyItemView,
    lines: Seq<text::LineView>,
    language_server: Inner,
    root: Option<Seq<char>>,
)
    requires
        item.may_be_item(shown, lines, language_server, root),
    ensures
        shown.range.start == text::position_at(lines, item.span.start as nat),
        shown.range.end == text::position_at(lines, (item.span.start + item.span.length) as nat),
        shown.selection_range.start == text::position_at(lines, item.selection_span.start as nat),
        shown.selection_range.end == text::position_at(
            lines,
            (item.selection_span.start + item.selection_span.length) as nat,
        ),
        specifier::parsed_url(item.file@) matches Some(href) ==> (
        language_server.url_map.client_url(href) matches Some(uri) ==> shown.uri == uri),
        shown.uri == language_server::uri_or_invalid(language_server.url_map, item.file@),
        shown.kind == element::symbol_kind(item.kind),
        shown.tags is Some <==> (item.kind_modifiers matches Some(modifiers)
            && element::has_modifier(modifiers@, "deprecated"@)),
        item.kind != ScriptElementKind::ScriptElement && (item.kind
            != ScriptElementKind::ModuleElement || item.selection_span.start > 0) ==> {
            &&& shown.name == item.name@
            &&& item.container_name matches Some(container) ==> shown.detail == Some(container@)
            &&& item.container_name is None ==> shown.detail == Some(Seq::<char>::empty())
        },
{
}

proof fn lemma_last_slash_at(directory: Seq<char>, name: Seq<char>)
    requires
        !name.contains('/'),
    ensures
        last_slash(directory + seq!['/'] + name) == directory.len(),
    decreases name.len(),
{
    let path = directory + seq!['/'] + name;
    if name.len() > 0 {
        assert(path.last() == name.last());
        assert(name.contains(name.last()));
        assert(path.drop_last() =~= directory + seq!['/'] + name.drop_last());
        assert forall|i: int| 0 <= i < name.drop_last().len() implies name.drop_last()[i]
            != '/' by {
            assert(name.contains(name[i]));
        }
        lemma_last_slash_at(directory, name.drop_last());
    }
}

/// A file is shown by what stands behind the last slash of its path. What stands before that slash is
/// its directory: all of it where there is no root, what stands behind the root where it lies below
/// it, and nothing where it is the root.
pub proof fn law_paths_are_split_at_the_last_slash(
    place: Option<FilePlaceView>,
    directory: Seq<char>,
    name: Seq<char>,
    root: Option<Seq<char>>,
    rest: Seq<char>,
)
    requires
        directory.len() > 0,
        !name.contains('/'),
        is_normal_path(directory + seq!['/'] + name),
        may_be_place(place, directory + seq!['/'] + name, root),
        is_clear_root(root),
    ensures
        place matches Some(place) && {
            &&& place.file_name == name
            &&& root is None ==> place.directory == directory
            &&& root == Some(directory) ==> place.directory.len() == 0
            &&& root matches Some(base) ==> (base.len() > 1 && directory == base + seq!['/'] + rest
                ==> place.directory == rest)
            &&& root matches Some(base) ==> (base.len() > 1 && base != directory && !(base
                + seq!['/']).is_prefix_of(directory) ==> place.directory == directory)
        },
{
    let path = directory + seq!['/'] + name;
    lemma_last_slash_at(directory, name);
    assert(path.skip(directory.len() as int + 1) =~= name);
    assert(path.subrange(0, directory.len() as int) =~= directory);
    if root is Some {
        let base = root->0;
        assert(base.push('/') =~= base + seq!['/']);
        if directory == base + seq!['/'] + rest {
            assert(directory.subrange(0, base.len() as int + 1) =~= base.push('/'));
            assert(directory.skip(base.len() as int + 1) =~= rest);
            assert(base.push('/').is_prefix_of(directory));
        }
    }
}

/// The spans end at offsets that can be counted.
pub open spec fn spans_fit(spans: Seq<TextSpan>) -> bool {
    forall|i: int| 0 <= i < spans.len() ==> (#[trigger] spans[i]).fits()
}

/// The ranges of spans of the text with these lines.
pub open spec fn ranges_of(spans: Seq<TextSpan>, lines: Seq<text::LineView>) -> Seq<Range> {
    Seq::new(spans.len(), |i: int| span::range_of(spans[i], lines))
}

/// The ranges of spans of a text.
fn to_ranges(spans: &Vec<TextSpan>, line_index: &Arc<LineIndex>) -> (r: Vec<Range>)
    requires
        spans_fit(spans@),
    ensures
        r@ == ranges_of(spans@, line_index@),
        r@.len() == spans@.len(),
        forall|i: int|
            0 <= i < spans@.len() ==> {
                &&& (#[trigger] r@[i]).start == text::position_at(
                    line_index@,
                    spans@[i].start as nat,
                )
                &&& r@[i].end == text::position_at(
                    line_index@,
                    (spans@[i].start + spans@[i].length) as nat,
                )
            },
{
    let mut ranges: Vec<Range> = Vec::new();
    let mut i: usize = 0;
    while i < spans.len()
        invariant
            i <= spans@.len(),
            ranges@.len() == i,
            spans_fit(spans@),
            forall|j: int|
                0 <= j < i ==> #[trigger] ranges@[j] == span::range_of(spans@[j], line_index@),
        decreases spans.len() - i,
    {
        ranges.push(spans[i].to_range(share(line_index)));
        i = i + 1;
    }
    assert(ranges@ =~= ranges_of(spans@, line_index@));
    ranges
}

/// A call of an item.
#[derive(Debug)]
pub struct CallHierarchyIncomingCall {
    pub from: CallHierarchyItem,
    pub from_spans: Vec<TextSpan>,
}

impl Named for CallHierarchyIncomingCall {
    open spec fn file_names(&self) -> Seq<Seq<char>> {
        self.from.file_names()
    }

    open spec fn same_but_names(&self, other: &Self) -> bool {
        self.from.same_but_names(&other.from) && self.from_spans == other.from_spans
    }

    proof fn lemma_same(&self) {
    }

    fn normalize(&mut self, map: &mut TscSpecifierMap) -> (r: Result<(), TscError>) {
        self.from.normalize(map)
    }
}

impl CallHierarchyIncomingCall {
    /// The call for the client, with the ranges in the document that it comes from; none where there
    /// is no document for its file.
    pub fn try_resolve_call_hierarchy_incoming_call(
        &self,
        language_server: &Inner,
        maybe_root_path: Option<&str>,
    ) -> (r: Option<lsp::CallHierarchyIncomingCall>)
        requires
            self.from.fits(),
            spans_fit(self.from_spans@),
        ensures
            match specifier::parsed_url(self.from.file@) {
                Some(href) => match language_server.document(href) {
                    Some(document) => r matches Some(call) && self.from.may_be_item(
                        call.from@,
                        document.lines(),
                        *language_server,
                        root_text(maybe_root_path),
                    ) && call.from_ranges@ == ranges_of(self.from_spans@, document.lines()),
                    None => r is None,
                },
                None => r is None,
            },
            r matches Some(call) ==> call.from_ranges@.len() == self.from_spans@.len(),
            r matches Some(call) ==> forall|i: int|
                0 <= i < self.from_spans@.len() ==> {
                    let spot = self.from_spans@[i];
                    &&& (#[trigger] call.from_ranges@[i]).start == text::position_at(
                        language_server.document(specifier::parsed_url(self.from.file@)->0)->0.lines(),
                        spot.start as nat,
                    )
                    &&& call.from_ranges@[i].end == text::position_at(
                        language_server.document(specifier::parsed_url(self.from.file@)->0)->0.lines(),
                        (spot.start + spot.length) as nat,
                    )
                },
    {
        let target_specifier = match ModuleSpecifier::parse(self.from.file.as_str()) {
            Ok(specifier) => specifier,
            Err(_) => return None,
        };
        let target_asset_or_doc = match language_server.get_maybe_asset_or_document(
            &target_specifier,
        ) {
            Some(document) => document,
            None => return None,
        };
        Some(
            lsp::CallHierarchyIncomingCall {
                from: self.from.to_call_hierarchy_item(
                    target_asset_or_doc.line_index(),
                    language_server,
                    maybe_root_path,
                ),
                from_ranges: to_ranges(&self.from_spans, &target_asset_or_doc.line_index()),
            },
        )
    }
}

/// A call that an item makes.
#[derive(Debug)]
pub struct CallHierarchyOutgoingCall {
    pub to: CallHierarchyItem,
    pub from_spans: Vec<TextSpan>,
}

impl Named for CallHierarchyOutgoingCall {
    open spec fn file_names(&self) -> Seq<Seq<char>> {
        self.to.file_names()
    }

    open spec fn same_but_names(&self, other: &Self) -> bool {
        self.to.same_but_names(&other.to) && self.from_spans == other.from_spans
    }

    proof fn lemma_same(&self) {
    }

    fn normalize(&mut self, map: &mut TscSpecifierMap) -> (r: Result<(), TscError>) {
        self.to.normalize(map)
    }
}

impl CallHierarchyOutgoingCall {
    /// The call for the client, with the ranges in the document that makes it; none where there is
    /// no document for the file that is called.
    pub fn try_resolve_call_hierarchy_outgoing_call(
        &self,
        line_index: Arc<LineIndex>,
        language_server: &Inner,
        maybe_root_path: Option<&str>,
    ) -> (r: Option<lsp::CallHierarchyOutgoingCall>)
        requires
            self.to.fits(),
            spans_fit(self.from_spans@),
        ensures
            match specifier::parsed_url(self.to.file@) {
                Some(href) => match language_server.document(href) {
                    Some(document) => r matches Some(call) && self.to.may_be_item(
                        call.to@,
                        document.lines(),
                        *language_server,
                        root_text(maybe_root_path),
                    ) && call.from_ranges@ == ranges_of(self.from_spans@, line_index@),
                    None => r is None,
                },
                None => r is None,
            },
            r matches Some(call) ==> call.from_ranges@.len() == self.from_spans@.len(),
            r matches Some(call) ==> forall|i: int|
                0 <= i < self.from_spans@.len() ==> {
                    let spot = self.from_spans@[i];
                    &&& (#[trigger] call.from_ranges@[i]).start == text::position_at(
                        line_index@,
                        spot.start as nat,
                    )
                    &&& call.from_ranges@[i].end == text::position_at(
                        line_index@,
                        (spot.start + spot.length) as nat,
                    )
                },
    {
        let target_specifier = match ModuleSpecifier::parse(self.to.file.as_str()) {
            Ok(specifier) => specifier,
            Err(_) => return None,
        };
        let target_asset_or_doc = match language_server.get_maybe_asset_or_document(
            &target_specifier,
        ) {
            Some(document) => document,
            None => return None,
        };
        Some(
            lsp::CallHierarchyOutgoingCall {
                to: self.to.to_call_hierarchy_item(
                    target_asset_or_doc.line_index(),
                    language_server,
                    maybe_root_path,
                ),
                from_ranges: to_ranges(&self.from_spans, &line_index),
            },
        )
    }
}

/// The file name of an item is read, of a call that of the item it comes from or goes to; nothing else of
/// them changes.
pub proof fn law_items_and_calls_are_kept(
    a: CallHierarchyItem,
    b: CallHierarchyItem,
    incoming: CallHierarchyIncomingCall,
    other_incoming: CallHierarchyIncomingCall,
    outgoing: CallHierarchyOutgoingCall,
    other_outgoing: CallHierarchyOutgoingCall,
)
    ensures
        a.file_names() == seq![a.file@],
        incoming.file_names() == seq![incoming.from.file@],
        outgoing.file_names() == seq![outgoing.to.file@],
        a.same_but_names(&b) <==> a.name == b.name && a.kind == b.kind && a.kind_modifiers
            == b.kind_modifiers && a.span == b.span && a.selection_span == b.selection_span
            && a.container_name == b.container_name,
        incoming.same_but_names(&other_incoming) ==> incoming.from_spans
            == other_incoming.from_spans && incoming.from.name == other_incoming.from.name
            && incoming.from.span == other_incoming.from.span,
        outgoing.same_but_names(&other_outgoing) ==> outgoing.from_spans
            == other_outgoing.from_spans && outgoing.to.name == other_outgoing.to.name
            && outgoing.to.span == other_outgoing.to.span,
{
}

} // verus!
