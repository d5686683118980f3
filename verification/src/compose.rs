use vstd::prelude::*;
use crate::text::{
    char_range, chars_equal, chars_of, find_char, first_index_of, indent_of, is_blank_char,
    join_texts, joined_with, leading_spaces, lemma_chars_deep_view, lemma_split_lines_join,
    lemma_split_lines_single, lines_of, split_lines, string_of, trim, trim_end, trim_start, trimmed,
};
use crate::paths::{path_text, path_to_text};
use crate::packager::ProjectInspection;

verus! {

// The compose file is read as far as its top-level `services` mapping: the
// names of the services are the keys of that mapping, in the order they are
// written.

/// A line that holds something: not blank and not a comment.
pub open spec fn significant(l: Seq<char>) -> bool {
    trimmed(l).len() > 0 && trimmed(l)[0] != '#'
}

/// `significant`, as a predicate value.
pub open spec fn significant_pred() -> spec_fn(Seq<char>) -> bool {
    |l: Seq<char>| significant(l)
}

/// A key without one pair of surrounding quotes.
pub open spec fn unquoted(k: Seq<char>) -> Seq<char> {
    if k.len() >= 2 && k[0] == k.last() && (k[0] == '"' || k[0] == '\'') {
        k.subrange(1, k.len() - 1)
    } else {
        k
    }
}

/// The key of a mapping entry `key: value` on a line, when it has one.
pub open spec fn entry_key(l: Seq<char>) -> Option<Seq<char>> {
    let body = l.skip(indent_of(l) as int);
    match first_index_of(body, ':') {
        None => None,
        Some(c) => {
            let k = unquoted(trimmed(body.take(c as int)));
            if k.len() > 0 {
                Some(k)
            } else {
                None
            }
        },
    }
}

/// What follows the key of a mapping entry on its line.
pub open spec fn entry_value(l: Seq<char>) -> Seq<char> {
    let body = l.skip(indent_of(l) as int);
    match first_index_of(body, ':') {
        None => Seq::empty(),
        Some(c) => trimmed(body.skip(c + 1int)),
    }
}

/// A line that starts a top-level entry.
pub open spec fn is_top_level(l: Seq<char>) -> bool {
    indent_of(l) == 0 && significant(l)
}

/// The line of the top-level `services` entry.
pub open spec fn is_services_line(l: Seq<char>) -> bool {
    is_top_level(l) && entry_key(l) == Some("services"@)
}

/// The first `services` line at or after `from`.
pub open spec fn services_line_from(lines: Seq<Seq<char>>, from: int) -> Option<int>
    decreases lines.len() - from,
{
    if from < 0 || from >= lines.len() {
        None
    } else if is_services_line(lines[from]) {
        Some(from)
    } else {
        services_line_from(lines, from + 1)
    }
}

/// The first top-level line at or after `from` (the end of the text when
/// there is none).
pub open spec fn block_end_from(lines: Seq<Seq<char>>, from: int) -> int
    decreases lines.len() - from,
{
    if from < 0 || from >= lines.len() {
        lines.len() as int
    } else if is_top_level(lines[from]) {
        from
    } else {
        block_end_from(lines, from + 1)
    }
}

/// The name a line gives a service, when it is an entry at the services'
/// indentation `k`.
pub open spec fn service_entry(k: nat, l: Seq<char>) -> Option<Seq<char>> {
    if significant(l) && indent_of(l) == k {
        entry_key(l)
    } else {
        None
    }
}

/// `service_entry` at indentation `k`, as a function value.
pub open spec fn service_entry_fn(k: nat) -> spec_fn(Seq<char>) -> Option<Seq<char>> {
    |l: Seq<char>| service_entry(k, l)
}

/// A line of the services mapping that breaks its layout: indented less
/// than the first service, or a line at the services' indentation that is
/// not a `name:` entry.
pub open spec fn misplaced(k: nat, l: Seq<char>) -> bool {
    indent_of(l) < k || (indent_of(l) == k && entry_key(l) is None)
}

/// The services named by the significant lines of the `services` mapping:
/// the entries at the indentation of the first one.
pub open spec fn services_in(sig: Seq<Seq<char>>) -> Result<Seq<Seq<char>>, ComposeError> {
    if sig.len() == 0 {
        Ok(Seq::empty())
    } else {
        let k = indent_of(sig[0]);
        if exists|i: int| 0 <= i < sig.len() && #[trigger] misplaced(k, sig[i]) {
            Err(ComposeError::MalformedServices)
        } else {
            Ok(sig.filter_map(service_entry_fn(k)))
        }
    }
}

/// Why the services of a compose file cannot be read.
#[derive(Debug, PartialEq, Eq, Structural)]
pub enum ComposeError {
    /// `services` is written inline in a form other than an empty mapping.
    UnsupportedServices,
    /// The lines of the `services` mapping are not laid out as a mapping.
    MalformedServices,
}

/// The message of a compose-file error.
pub open spec fn compose_error_text(e: ComposeError) -> Seq<char> {
    match e {
        ComposeError::UnsupportedServices => "services 只支持映射写法"@,
        ComposeError::MalformedServices => "services 映射的缩进或条目无法识别"@,
    }
}

impl ComposeError {
    /// The message of the error.
    pub fn message(&self) -> (r: String)
        ensures
            r@ == compose_error_text(*self),
    {
        match self {
            ComposeError::UnsupportedServices => "services 只支持映射写法".to_owned(),
            ComposeError::MalformedServices => "services 映射的缩进或条目无法识别".to_owned(),
        }
    }
}

/// The services that a compose file declares, in the order written: none
/// when it has no top-level `services` entry, or when that entry is empty
/// (`{}`, `~`, `null` or nothing under it).
pub open spec fn compose_services(text: Seq<char>) -> Result<Seq<Seq<char>>, ComposeError> {
    let lines = split_lines(text);
    match services_line_from(lines, 0) {
        None => Ok(Seq::empty()),
        Some(s) => {
            let v = entry_value(lines[s]);
            if v.len() > 0 && v[0] != '#' {
                if v == "{}"@ || v == "~"@ || v == "null"@ {
                    Ok(Seq::empty())
                } else {
                    Err(ComposeError::UnsupportedServices)
                }
            } else {
                let block = lines.subrange(s + 1, block_end_from(lines, s + 1));
                services_in(block.filter(significant_pred()))
            }
        },
    }
}

proof fn lemma_trim_start_skips_blanks(pad: Seq<char>, s: Seq<char>)
    requires
        forall|i: int| 0 <= i < pad.len() ==> is_blank_char(#[trigger] pad[i]),
    ensures
        trim_start(pad + s) == trim_start(s),
    decreases pad.len(),
{
    if pad.len() == 0 {
        assert(pad + s =~= s);
    } else {
        assert((pad + s).drop_first() =~= pad.drop_first() + s);
        lemma_trim_start_skips_blanks(pad.drop_first(), s);
    }
}

proof fn lemma_trim_end_keeps_first(s: Seq<char>)
    requires
        s.len() > 0,
        !is_blank_char(s[0]),
    ensures
        trim_end(s).len() > 0,
        trim_end(s)[0] == s[0],
    decreases s.len(),
{
    if is_blank_char(s.last()) {
        lemma_trim_end_keeps_first(s.drop_last());
    }
}

/// The line `services:` followed by `rest` on the same line is the
/// services line, and what follows its key is `rest`, trimmed.
proof fn lemma_services_key_line(rest: Seq<char>)
    ensures
        is_services_line("services:"@ + rest),
        entry_value("services:"@ + rest) == trimmed(rest),
{
    let l = "services:"@ + rest;
    reveal_strlit("services:");
    reveal_strlit("services");
    assert(l[0] == 's');
    assert(indent_of(l) == 0);
    assert(l.skip(0) =~= l);
    assert forall|k: int| 0 <= k < 8 implies l[k] != ':' by {}
    crate::text::lemma_first_index_of_skip(l, ':', 8);
    assert(l.skip(8)[0] == ':');
    assert(first_index_of(l, ':') == Some(8nat));
    let head = l.take(8);
    assert(head =~= "services"@);
    assert(trim_start(head) == head);
    assert(trim_end(head) == head);
    assert(unquoted(trimmed(head)) == "services"@);
    assert(entry_key(l) == Some("services"@));
    assert(trim_start(l) == l);
    lemma_trim_end_keeps_first(l);
    assert(significant(l));
    assert(l.skip(9) =~= rest);
}

proof fn lemma_block_end_from_same_tail(a: Seq<Seq<char>>, b: Seq<Seq<char>>, from: int)
    requires
        a.len() == b.len(),
        0 <= from,
        forall|i: int| from <= i < a.len() ==> a[i] == b[i],
    ensures
        block_end_from(a, from) == block_end_from(b, from),
        from <= a.len() ==> from <= block_end_from(a, from) <= a.len(),
    decreases a.len() - from,
{
    if from < a.len() {
        lemma_block_end_from_same_tail(a, b, from + 1);
    }
}

/// A comment after `services:` on its line does not change what is read:
/// the services are those of the mapping below it, as when the line ends
/// at the colon.  The comment is `#` and the rest of the line, after one or
/// more blanks.
pub proof fn lemma_services_comment_ignored(pad: Seq<char>, comment: Seq<char>, rest: Seq<char>)
    requires
        pad.len() > 0,
        forall|i: int| 0 <= i < pad.len() ==> is_blank_char(#[trigger] pad[i]),
        forall|i: int| 0 <= i < comment.len() ==> #[trigger] comment[i] != '\n',
    ensures
        compose_services("services:"@ + pad + "#"@ + comment + "\n"@ + rest) == compose_services(
            "services:\n"@ + rest,
        ),
{
    reveal_strlit("services:");
    reveal_strlit("services:\n");
    reveal_strlit("#");
    reveal_strlit("\n");
    let tail = pad + "#"@ + comment;
    let with_comment = "services:"@ + tail;
    let bare = "services:"@ + Seq::<char>::empty();
    assert("services:"@ + pad + "#"@ + comment + "\n"@ + rest =~= with_comment + seq!['\n']
        + rest);
    assert("services:\n"@ + rest =~= bare + seq!['\n'] + rest);
    assert forall|i: int| 0 <= i < with_comment.len() implies with_comment[i] != '\n' by {
        if i >= 9 + pad.len() + 1 {
            assert(with_comment[i] == comment[i - 10 - pad.len()]);
        } else if i >= 9 {
            if i < 9 + pad.len() {
                assert(with_comment[i] == pad[i - 9]);
            }
        }
    }
    assert forall|i: int| 0 <= i < bare.len() implies bare[i] != '\n' by {}
    lemma_split_lines_join(with_comment, rest);
    lemma_split_lines_join(bare, rest);
    lemma_split_lines_single(with_comment);
    lemma_split_lines_single(bare);
    let lines1 = split_lines(with_comment + seq!['\n'] + rest);
    let lines0 = split_lines(bare + seq!['\n'] + rest);
    assert(lines1 == seq![with_comment] + split_lines(rest));
    assert(lines0 == seq![bare] + split_lines(rest));
    lemma_services_key_line(tail);
    lemma_services_key_line(Seq::empty());
    assert(services_line_from(lines1, 0) == Some(0int));
    assert(services_line_from(lines0, 0) == Some(0int));
    lemma_trim_start_skips_blanks(pad, "#"@ + comment);
    assert(pad + "#"@ + comment =~= pad + ("#"@ + comment));
    assert(trim_start("#"@ + comment) == "#"@ + comment);
    lemma_trim_end_keeps_first("#"@ + comment);
    assert(entry_value(lines1[0])[0] == '#');
    assert(trim_start(Seq::<char>::empty()) == Seq::<char>::empty());
    assert(entry_value(lines0[0]).len() == 0);
    lemma_block_end_from_same_tail(lines1, lines0, 1);
    assert(lines1.subrange(1, block_end_from(lines1, 1)) =~= lines0.subrange(
        1,
        block_end_from(lines0, 1),
    ));
}

fn no_services() -> (r: Vec<String>)
    ensures
        r.deep_view() == Seq::<Seq<char>>::empty(),
{
    let r: Vec<String> = Vec::new();
    assert(r.deep_view() =~= Seq::<Seq<char>>::empty());
    r
}

fn is_significant(line: &Vec<char>) -> (r: bool)
    ensures
        r == significant(line@),
{
    let t = trim(line);
    t.len() > 0 && t[0] != '#'
}

fn unquote(k: Vec<char>) -> (r: Vec<char>)
    ensures
        r@ == unquoted(k@),
{
    let n = k.len();
    if n >= 2 && k[0] == k[n - 1] && (k[0] == '"' || k[0] == '\'') {
        char_range(&k, 1, n - 1)
    } else {
        k
    }
}

fn line_body(line: &Vec<char>) -> (r: Vec<char>)
    ensures
        r@ == line@.skip(indent_of(line@) as int),
{
    let ind = leading_spaces(line);
    let r = char_range(line, ind, line.len());
    assert(r@ =~= line@.skip(ind as int));
    r
}

fn line_key(line: &Vec<char>) -> (r: Option<Vec<char>>)
    ensures
        match r {
            Some(k) => entry_key(line@) == Some(k@),
            None => entry_key(line@) is None,
        },
{
    let body = line_body(line);
    match find_char(&body, ':') {
        None => None,
        Some(c) => {
            let head = char_range(&body, 0, c);
            assert(head@ =~= body@.take(c as int));
            let k = unquote(trim(&head));
            if k.len() > 0 {
                Some(k)
            } else {
                None
            }
        },
    }
}

fn line_value(line: &Vec<char>) -> (r: Vec<char>)
    ensures
        r@ == entry_value(line@),
{
    let body = line_body(line);
    match find_char(&body, ':') {
        None => Vec::new(),
        Some(c) => {
            let tail = char_range(&body, c + 1, body.len());
            assert(tail@ =~= body@.skip(c + 1));
            trim(&tail)
        },
    }
}

fn is_top_level_line(line: &Vec<char>) -> (r: bool)
    ensures
        r == is_top_level(line@),
{
    leading_spaces(line) == 0 && is_significant(line)
}

fn is_services_entry(line: &Vec<char>) -> (r: bool)
    ensures
        r == is_services_line(line@),
{
    if !is_top_level_line(line) {
        return false;
    }
    match line_key(line) {
        Some(k) => chars_equal(&k, "services"),
        None => false,
    }
}

/// Reads the names of the services that a compose file declares
/// (`list_compose_services`, on the file's text).
pub fn parse_compose_services(text: &str) -> (r: Result<Vec<String>, ComposeError>)
    ensures
        match r {
            Ok(names) => compose_services(text@) == Ok::<Seq<Seq<char>>, ComposeError>(
                names.deep_view(),
            ),
            Err(e) => compose_services(text@) == Err::<Seq<Seq<char>>, ComposeError>(e),
        },
{
    let chars = chars_of(text);
    let lines = lines_of(&chars);
    let ghost lv = lines.deep_view();
    assert(lv == split_lines(text@));
    let n = lines.len();
    let mut s: usize = 0;
    let mut found = false;
    while s < n && !found
        invariant
            lv == lines.deep_view(),
            n == lines.len(),
            s <= n,
            found ==> s < n && is_services_line(lv[s as int]),
            services_line_from(lv, 0) == services_line_from(lv, s as int),
        decreases n - s, (if found { 0int } else { 1int }),
    {
        proof {
            lemma_chars_deep_view(lines@[s as int]);
        }
        if is_services_entry(&lines[s]) {
            found = true;
        } else {
            s = s + 1;
        }
    }
    if !found {
        return Ok(no_services());
    }
    assert(services_line_from(lv, 0) == Some(s as int));
    proof {
        lemma_chars_deep_view(lines@[s as int]);
    }
    let v = line_value(&lines[s]);
    if v.len() > 0 && v[0] != '#' {
        if chars_equal(&v, "{}") || chars_equal(&v, "~") || chars_equal(&v, "null") {
            return Ok(no_services());
        }
        return Err(ComposeError::UnsupportedServices);
    }
    let mut end: usize = s + 1;
    while end < n && !is_top_level_line(&lines[end])
        invariant
            lv == lines.deep_view(),
            n == lines.len(),
            s < end <= n,
            block_end_from(lv, s + 1) == block_end_from(lv, end as int),
        decreases n - end,
    {
        proof {
            lemma_chars_deep_view(lines@[end as int]);
        }
        end = end + 1;
    }
    proof {
        if end < n {
            lemma_chars_deep_view(lines@[end as int]);
        }
    }
    assert(block_end_from(lv, s + 1) == end);
    let ghost block = lv.subrange(s + 1, end as int);
    let mut sig: Vec<Vec<char>> = Vec::new();
    let mut i: usize = s + 1;
    assert(block.take(0) =~= Seq::<Seq<char>>::empty());
    reveal(Seq::filter);
    while i < end
        invariant
            lv == lines.deep_view(),
            n == lines.len(),
            s < i <= end <= n,
            block == lv.subrange(s + 1, end as int),
            sig.deep_view() == block.take(i - s - 1).filter(significant_pred()),
        decreases end - i,
    {
        proof {
            lemma_chars_deep_view(lines@[i as int]);
            assert(block.take(i - s) =~= block.take(i - s - 1).push(lv[i as int]));
            block.take(i - s - 1).lemma_filter_push(lv[i as int], significant_pred());
        }
        if is_significant(&lines[i]) {
            let ghost before = sig.deep_view();
            let l = char_range(&lines[i], 0, lines[i].len());
            proof {
                lemma_chars_deep_view(l);
                assert(l@ =~= lines@[i as int]@);
            }
            sig.push(l);
            assert(sig.deep_view() =~= before.push(lv[i as int]));
        }
        i = i + 1;
    }
    assert(block.take(end - s - 1) =~= block);
    let ghost sv = sig.deep_view();
    assert(compose_services(text@) == services_in(sv));
    if sig.len() == 0 {
        return Ok(no_services());
    }
    proof {
        lemma_chars_deep_view(sig@[0]);
    }
    let k = leading_spaces(&sig[0]);
    let ghost f = service_entry_fn(k as nat);
    let mut names: Vec<String> = Vec::new();
    assert(sv.take(0).filter_map(f) =~= Seq::<Seq<char>>::empty());
    for j in 0..sig.len()
        invariant
            sv == sig.deep_view(),
            sv.len() > 0,
            compose_services(text@) == services_in(sv),
            k == indent_of(sv[0]),
            f == service_entry_fn(k as nat),
            forall|m: int| 0 <= m < j ==> !#[trigger] misplaced(k as nat, sv[m]),
            names.deep_view() == sv.take(j as int).filter_map(f),
            forall|m: int| 0 <= m < sv.len() ==> #[trigger] significant(sv[m]),
    {
        proof {
            lemma_chars_deep_view(sig@[j as int]);
            sv.lemma_filter_map_take_succ(f, j as int);
        }
        let ind = leading_spaces(&sig[j]);
        if ind < k {
            assert(misplaced(k as nat, sv[j as int]));
            return Err(ComposeError::MalformedServices);
        }
        if ind == k {
            match line_key(&sig[j]) {
                None => {
                    assert(misplaced(k as nat, sv[j as int]));
                    return Err(ComposeError::MalformedServices);
                },
                Some(key) => {
                    let ghost before = names.deep_view();
                    let name = string_of(&key);
                    names.push(name);
                    assert(f(sv[j as int]) == Some(key@));
                    assert(names.deep_view() =~= before + seq![key@]);
                },
            }
        } else {
            assert(f(sv[j as int]) is None);
        }
    }
    assert(sv.take(sig.len() as int) =~= sv);
    Ok(names)
}

/// The image tag used when none is given: `<project_name>:latest`.
pub open spec fn default_image_tag_text(project_name: Seq<char>) -> Seq<char> {
    project_name + ":latest"@
}

/// The image tag used when none is given: `<project_name>:latest`.
pub fn default_image_tag(project_name: &str) -> (r: String)
    ensures
        r@ == default_image_tag_text(project_name@),
{
    let mut r = project_name.to_owned();
    r.append(":latest");
    r
}

/// Why the service to deploy could not be told.
#[derive(Debug)]
pub enum ServiceNameError {
    /// The compose file could not be read, or its services not listed.
    Unreadable { compose_file: String, reason: String },
    /// The compose file declares no service.
    NoServices { compose_file: String },
    /// The compose file declares several services.
    MultipleServices { compose_file: String, services: Vec<String> },
}

/// `ServiceNameError` with its texts as character sequences.
pub enum ServiceNameErrorView {
    Unreadable { compose_file: Seq<char>, reason: Seq<char> },
    NoServices { compose_file: Seq<char> },
    MultipleServices { compose_file: Seq<char>, services: Seq<Seq<char>> },
}

impl View for ServiceNameError {
    type V = ServiceNameErrorView;

    open spec fn view(&self) -> ServiceNameErrorView {
        match self {
            ServiceNameError::Unreadable { compose_file, reason } => ServiceNameErrorView::Unreadable {
                compose_file: compose_file@,
                reason: reason@,
            },
            ServiceNameError::NoServices { compose_file } => ServiceNameErrorView::NoServices {
                compose_file: compose_file@,
            },
            ServiceNameError::MultipleServices { compose_file, services } =>
                ServiceNameErrorView::MultipleServices {
                compose_file: compose_file@,
                services: services.deep_view(),
            },
        }
    }
}

/// The message that tells the user what went wrong and to name the
/// service with `--service`.
pub open spec fn service_error_text(e: ServiceNameErrorView) -> Seq<char> {
    match e {
        ServiceNameErrorView::Unreadable { compose_file, reason } => "无法从 Compose 文件 "@
            + compose_file + " 自动推断服务名: "@ + reason + "。请使用 --service 显式指定"@,
        ServiceNameErrorView::NoServices { compose_file } => "Compose 文件 "@ + compose_file
            + " 未找到服务定义，请使用 --service 显式指定"@,
        ServiceNameErrorView::MultipleServices { compose_file, services } => "Compose 文件 "@
            + compose_file + " 包含多个服务: "@ + joined_with(services, ", "@)
            + "。请使用 --service 显式指定"@,
    }
}

impl ServiceNameError {
    /// The message of the error.
    pub fn message(&self) -> (r: String)
        ensures
            r@ == service_error_text(self@),
    {
        let mut r = String::new();
        match self {
            ServiceNameError::Unreadable { compose_file, reason } => {
                r.append("无法从 Compose 文件 ");
                r.append(compose_file.as_str());
                r.append(" 自动推断服务名: ");
                r.append(reason.as_str());
                r.append("。请使用 --service 显式指定");
            },
            ServiceNameError::NoServices { compose_file } => {
                r.append("Compose 文件 ");
                r.append(compose_file.as_str());
                r.append(" 未找到服务定义，请使用 --service 显式指定");
            },
            ServiceNameError::MultipleServices { compose_file, services } => {
                r.append("Compose 文件 ");
                r.append(compose_file.as_str());
                r.append(" 包含多个服务: ");
                let names = join_texts(services, ", ");
                r.append(names.as_str());
                r.append("。请使用 --service 显式指定");
            },
        }
        assert(r@ =~= service_error_text(self@));
        r
    }
}

/// A listing of services, or why there is none, as views.
pub open spec fn listing_view(listing: Result<Vec<String>, String>) -> Result<Seq<Seq<char>>, Seq<char>> {
    match listing {
        Ok(v) => Ok(v.deep_view()),
        Err(e) => Err(e@),
    }
}

/// The service to deploy: the one named, else the only service of the
/// compose file (`compose_file` is the file's text, `listing` its services
/// or why they could not be listed).
pub open spec fn service_choice(
    service: Option<Seq<char>>,
    compose_file: Seq<char>,
    listing: Result<Seq<Seq<char>>, Seq<char>>,
) -> Result<Seq<char>, ServiceNameErrorView> {
    match service {
        Some(s) => Ok(s),
        None => match listing {
            Err(reason) => Err(ServiceNameErrorView::Unreadable { compose_file, reason }),
            Ok(names) => if names.len() == 1 {
                Ok(names[0])
            } else if names.len() == 0 {
                Err(ServiceNameErrorView::NoServices { compose_file })
            } else {
                Err(ServiceNameErrorView::MultipleServices { compose_file, services: names })
            },
        },
    }
}

/// An optional text as a view.
pub open spec fn opt_text(o: Option<String>) -> Option<Seq<char>> {
    match o {
        Some(s) => Some(s@),
        None => None,
    }
}

/// Tells the service to deploy (`resolve_service_name`): the one named with
/// `--service`, else the single service that the compose file declares.
/// `listing` is what listing the compose file's services gave; it is not
/// read when a service is named.
pub fn resolve_service_name(
    service: &Option<String>,
    compose_file_rel: &Vec<String>,
    listing: &Result<Vec<String>, String>,
) -> (r: Result<String, ServiceNameError>)
    ensures
        match r {
            Ok(name) => service_choice(
                opt_text(*service),
                path_text(compose_file_rel.deep_view()),
                listing_view(*listing),
            ) == Ok::<Seq<char>, ServiceNameErrorView>(name@),
            Err(e) => service_choice(
                opt_text(*service),
                path_text(compose_file_rel.deep_view()),
                listing_view(*listing),
            ) == Err::<Seq<char>, ServiceNameErrorView>(e@),
        },
{
    if let Some(s) = service {
        return Ok(s.clone());
    }
    let compose_file = path_to_text(compose_file_rel);
    match listing {
        Err(reason) => Err(ServiceNameError::Unreadable { compose_file, reason: reason.clone() }),
        Ok(names) => {
            if names.len() == 1 {
                Ok(names[0].clone())
            } else if names.len() == 0 {
                Err(ServiceNameError::NoServices { compose_file })
            } else {
                Err(ServiceNameError::MultipleServices { compose_file, services: names.clone() })
            }
        },
    }
}

/// What the remote build and start are told: the Dockerfile and compose
/// file (relative to the project), the service and the image tag.
#[derive(Debug, Clone)]
pub struct ComposeSpec {
    pub dockerfile_rel: Vec<String>,
    pub compose_file_rel: Vec<String>,
    pub service_name: String,
    pub image_tag: String,
}

/// Settles what to build and start (`build_compose_spec`): the project's
/// Dockerfile and compose file, the service from `resolve_service_name`, and
/// the image tag given or else `<project_name>:latest`.
pub fn build_compose_spec(
    inspection: &ProjectInspection,
    service: &Option<String>,
    image_tag: &Option<String>,
    listing: &Result<Vec<String>, String>,
) -> (r: Result<ComposeSpec, ServiceNameError>)
    ensures
        ({
            let choice = service_choice(
                opt_text(*service),
                path_text(inspection.compose_file_rel.deep_view()),
                listing_view(*listing),
            );
            match r {
                Ok(spec) => {
                    &&& choice == Ok::<Seq<char>, ServiceNameErrorView>(spec.service_name@)
                    &&& spec.dockerfile_rel.deep_view() == inspection.dockerfile_rel.deep_view()
                    &&& spec.compose_file_rel.deep_view()
                        == inspection.compose_file_rel.deep_view()
                    &&& spec.image_tag@ == match *image_tag {
                        Some(t) => t@,
                        None => default_image_tag_text(inspection.project_name@),
                    }
                },
                Err(e) => choice == Err::<Seq<char>, ServiceNameErrorView>(e@),
            }
        }),
{
    let service_name = resolve_service_name(service, &inspection.compose_file_rel, listing)?;
    let tag = match image_tag {
        Some(t) => t.clone(),
        None => default_image_tag(inspection.project_name.as_str()),
    };
    Ok(
        ComposeSpec {
            dockerfile_rel: inspection.dockerfile_rel.clone(),
            compose_file_rel: inspection.compose_file_rel.clone(),
            service_name,
            image_tag: tag,
        },
    )
}

} // verus!
