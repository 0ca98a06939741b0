//! Text files attached to a conversation: names, summaries and what of them
//! goes into a prompt.
use vstd::prelude::*;
use crate::memory::{filled_lines, split_filled_lines, text_in};
use crate::text::{
    chars_of, clip_chars, clipped, contains, ends, ends_with, eq_ignore_ascii_case, flatten_spaces,
    flattened, has_part, is_blank, join, joined, lowercase, opt_text, pieces, replace_char, replaced,
    same_ignoring_ascii_case, starts, sub_chars, text_eq, text_of, texts, trim, trimmed,
};

verus! {

/// A name that is one component of a path on every platform.
pub open spec fn is_plain_name(name: Seq<char>) -> bool {
    &&& name.len() > 0
    &&& !name.contains('/')
    &&& !name.contains('\\')
    &&& !name.contains(':')
    &&& name != "."@
    &&& name != ".."@
}

/// A slash.
pub open spec fn is_slash() -> spec_fn(char) -> bool {
    |c: char| c == '/'
}

/// What stands between two slashes names something.
pub open spec fn is_step() -> spec_fn(Seq<char>) -> bool {
    |p: Seq<char>| p.len() > 0 && p != "."@
}

/// The names on the way that a path with slashes describes.
pub open spec fn steps(path: Seq<char>) -> Seq<Seq<char>> {
    pieces(path, is_slash()).filter(is_step())
}

/// The last name of a path with slashes; nothing where the path has none, or
/// goes up at its end.
pub open spec fn path_name(path: Seq<char>) -> Option<Seq<char>> {
    let all = steps(path);
    if all.len() == 0 || all.last() == ".."@ {
        None
    } else {
        Some(all.last())
    }
}

/// A path whose last name is the same on every platform: it holds no
/// backslash, does not begin with two slashes, and ends in no name with a
/// colon.
pub open spec fn is_portable(path: Seq<char>) -> bool {
    &&& !path.contains('\\')
    &&& !starts(path, "//"@)
    &&& steps(path).len() > 0 ==> !steps(path).last().contains(':')
}

/// `Path::file_name` gives the last component of a path, if there is one. The
/// component is a part of the path; of a path that is read alike on every
/// platform it is the last name between slashes, where slashes in a row, a slash
/// at the end and names `.` count for nothing, and there is none where that name
/// is `..`. What separates the components of other paths depends on the platform
/// and is not stated.
#[verifier::external_body]
fn path_file_name(path: &str) -> (r: Option<String>)
    ensures
        r matches Some(n) ==> has_part(path@, n@),
        is_portable(path@) ==> opt_text(r) == path_name(path@),
{
    std::path::Path::new(path).file_name().and_then(|n| n.to_str()).map(|n| n.to_owned())
}

/// Whether a character is a letter or a digit in Unicode.
pub uninterp spec fn alphanumeric(c: char) -> bool;

/// `char::is_alphanumeric` is a function of the character; of the ASCII
/// characters it holds for the letters and digits.
pub assume_specification[ char::is_alphanumeric ](c: char) -> (r: bool)
    ensures
        r == alphanumeric(c),
        (c as u32) < 128 ==> r == ('0' <= c <= '9' || 'A' <= c <= 'Z' || 'a' <= c <= 'z'),
;

// ---------------------------------------------------------------------------
// Names
// ---------------------------------------------------------------------------

/// The position of the last dot, or -1.
pub open spec fn last_dot(name: Seq<char>) -> int
    decreases name.len(),
{
    if name.len() == 0 {
        -1
    } else if name.last() == '.' {
        name.len() - 1
    } else {
        last_dot(name.drop_last())
    }
}

/// The part of a file name behind its last dot, unless that dot is its first
/// character.
pub open spec fn extension_of(name: Seq<char>) -> Option<Seq<char>> {
    if last_dot(name) <= 0 || name == ".."@ {
        None
    } else {
        Some(name.skip(last_dot(name) + 1))
    }
}

/// Whether a file name, if there is one, has the extension `txt` in any case.
pub open spec fn is_txt_name(name: Option<Seq<char>>) -> bool {
    match name {
        Some(n) => match extension_of(n) {
            Some(e) => same_ignoring_ascii_case(e, "txt"@),
            None => false,
        },
        None => false,
    }
}

/// Whether a file name, if there is one, has the extension `txt` in any case.
pub fn has_txt_extension(name: Option<&str>) -> (r: bool)
    ensures
        r == is_txt_name(crate::text::opt_str(name)),
{
    match name {
        None => false,
        Some(n) => {
            let v = chars_of(n);
            let mut i: usize = v.len();
            assert(v@.take(v@.len() as int) =~= v@);
            while i > 0 && v[i - 1] != '.'
                invariant
                    i <= v.len(),
                    v@ == n@,
                    last_dot(v@) == last_dot(v@.take(i as int)),
                decreases i,
            {
                assert(v@.take(i as int).drop_last() =~= v@.take(i - 1));
                i = i - 1;
            }
            assert(last_dot(v@) == i - 1);
            if i <= 1 || text_eq(n, "..") {
                return false;
            }
            let e = sub_chars(&v, i, v.len());
            assert(e@ =~= n@.skip(i as int));
            eq_ignore_ascii_case(&text_of(&e), "txt")
        },
    }
}

/// Whether a path names a file with the extension `txt` in any case.
pub fn is_txt_file_name(name: &str) -> (r: bool)
    ensures
        exists|component: Option<Seq<char>>|
            {
                &&& component matches Some(n) ==> has_part(name@, n)
                &&& is_portable(name@) ==> component == path_name(name@)
                &&& r == #[trigger] is_txt_name(component)
            },
{
    match path_file_name(name) {
        Some(n) => {
            let r = has_txt_extension(Some(n.as_str()));
            assert(r == is_txt_name(Some(n@)));
            r
        },
        None => {
            assert(!is_txt_name(None));
            false
        },
    }
}

// ---------------------------------------------------------------------------
// Stored paths
// ---------------------------------------------------------------------------

/// The path under which a file was stored, without white space around it; none
/// where it is blank.
pub fn stored_path(stored: &str) -> (r: Option<String>)
    ensures
        opt_text(r) == (if is_blank(stored@) {
            None
        } else {
            Some(trimmed(stored@))
        }),
{
    let rel = trim(stored);
    if rel.as_str().is_empty() {
        None
    } else {
        Some(rel)
    }
}

/// Whether a path lies in a directory, both by their components.
pub fn lies_in(full: &Vec<String>, dir: &Vec<String>) -> (r: bool)
    ensures
        r == texts(dir@).is_prefix_of(texts(full@)),
{
    if dir.len() > full.len() {
        return false;
    }
    for i in 0..dir.len()
        invariant
            dir.len() <= full.len(),
            forall|k: int| 0 <= k < i ==> #[trigger] texts(dir@)[k] == texts(full@)[k],
    {
        assert(texts(dir@)[i as int] == dir@[i as int]@);
        assert(texts(full@)[i as int] == full@[i as int]@);
        if !text_eq(&dir[i], &full[i]) {
            assert(texts(full@).subrange(0, dir@.len() as int)[i as int] == texts(full@)[i as int]);
            return false;
        }
    }
    assert(texts(full@).subrange(0, dir@.len() as int) =~= texts(dir@));
    true
}

/// A character that a stored name keeps.
pub open spec fn is_name_char(c: char) -> bool {
    alphanumeric(c) || c == '.' || c == '-' || c == '_'
}

/// A name with every character that is no letter, digit, dot, dash, underscore
/// or blank replaced by an underscore.
pub open spec fn masked(s: Seq<char>) -> Seq<char> {
    Seq::new(s.len(), |i: int| if is_name_char(s[i]) || s[i] == ' ' { s[i] } else { '_' })
}

/// `s` without its leading dots.
pub open spec fn without_leading_dots(s: Seq<char>) -> Seq<char>
    decreases s.len(),
{
    if s.len() > 0 && s[0] == '.' {
        without_leading_dots(s.drop_first())
    } else {
        s
    }
}

/// `s`, or a name for an upload where it is empty.
pub open spec fn or_upload(s: Seq<char>) -> Seq<char> {
    if s.len() == 0 {
        "upload.txt"@
    } else {
        s
    }
}

/// `s` with the extension `.txt`, which is added unless the text in lower case has it.
pub open spec fn with_txt(s: Seq<char>) -> Seq<char> {
    if ends(lowercase(s), ".txt"@) {
        s
    } else {
        s + ".txt"@
    }
}

/// The name under which a file is stored, made from its file name.
pub open spec fn stored_name(file_name: Option<Seq<char>>) -> Seq<char> {
    let source = trimmed(
        match file_name {
            Some(n) => n,
            None => "upload.txt"@,
        },
    );
    shortened(or_upload(without_leading_dots(with_txt(or_upload(underscored(source))))))
}

/// A name with its unsafe characters and blanks replaced by underscores.
pub open spec fn underscored(source: Seq<char>) -> Seq<char> {
    replaced(trimmed(masked(source)), ' ', seq!['_'])
}

/// A name of at most 96 characters.
pub open spec fn shortened(name: Seq<char>) -> Seq<char> {
    if name.len() > 96 {
        with_txt(name.take(92))
    } else {
        name
    }
}

/// Adds the extension `.txt` unless the text in lower case has it.
fn add_txt(s: String) -> (r: String)
    ensures
        r@ == with_txt(s@),
{
    if ends_with(&s.to_lowercase(), ".txt") {
        s
    } else {
        let mut t = s;
        t.append(".txt");
        t
    }
}

/// The name under which a file is stored, made from its file name.
pub fn sanitize_component(file_name: Option<&str>) -> (r: String)
    ensures
        r@ == stored_name(crate::text::opt_str(file_name)),
        is_safe_name(r@),
{
    let source = chars_of(
        &trim(
            match file_name {
                Some(n) => n,
                None => "upload.txt",
            },
        ),
    );
    let mut marked: Vec<char> = Vec::new();
    for i in 0..source.len()
        invariant
            marked@ == masked(source@).take(i as int),
            all_safe(marked@, true),
    {
        let ch = source[i];
        if ch.is_alphanumeric() || ch == '.' || ch == '-' || ch == '_' || ch == ' ' {
            marked.push(ch);
        } else {
            marked.push('_');
        }
    }
    assert(masked(source@).take(source@.len() as int) =~= masked(source@));
    proof {
        lemma_stored_name_safe(crate::text::opt_str(file_name), source@);
        reveal_strlit("_");
        assert("_"@ =~= seq!['_']);
    }
    let mut out = replace_char(&trim(&text_of(&marked)), ' ', "_");
    if out.as_str().is_empty() {
        out = "upload.txt".to_owned();
    }
    let named = add_txt(out);
    let v = chars_of(&named);
    let mut from: usize = 0;
    assert(v@.skip(0) =~= v@);
    while from < v.len() && v[from] == '.'
        invariant
            from <= v.len(),
            without_leading_dots(v@) == without_leading_dots(v@.skip(from as int)),
        decreases v.len() - from,
    {
        assert(v@.skip(from as int).drop_first() =~= v@.skip(from + 1));
        from = from + 1;
    }
    let rest = sub_chars(&v, from, v.len());
    assert(rest@ =~= v@.skip(from as int));
    let bare = if rest.len() == 0 {
        "upload.txt".to_owned()
    } else {
        text_of(&rest)
    };
    let b = chars_of(&bare);
    if b.len() > 96 {
        let head = sub_chars(&b, 0, 92);
        assert(head@ =~= bare@.take(92));
        add_txt(text_of(&head))
    } else {
        bare
    }
}

/// The name under which a file is stored.
pub fn sanitize_txt_file_name(name: &str) -> (r: String)
    ensures
        exists|component: Option<Seq<char>>|
            {
                &&& component matches Some(n) ==> has_part(name@, n)
                &&& is_portable(name@) ==> component == path_name(name@)
                &&& r@ == #[trigger] stored_name(component)
            },
        is_safe_name(r@),
{
    match path_file_name(name) {
        Some(n) => {
            let r = sanitize_component(Some(n.as_str()));
            assert(r@ == stored_name(Some(n@)));
            r
        },
        None => sanitize_component(None),
    }
}

proof fn lemma_without_leading_dots(s: Seq<char>)
    ensures
        without_leading_dots(s).len() <= s.len(),
        without_leading_dots(s) == s.skip(s.len() - without_leading_dots(s).len()),
        without_leading_dots(s).len() > 0 ==> without_leading_dots(s)[0] != '.',
    decreases s.len(),
{
    if s.len() > 0 && s[0] == '.' {
        lemma_without_leading_dots(s.drop_first());
        let r = without_leading_dots(s);
        assert(s.drop_first().skip(s.drop_first().len() - r.len()) =~= s.skip(s.len() - r.len()));
    } else {
        assert(s.skip(0) =~= s);
    }
}

/// A character that is not ASCII, or is a letter, a digit, a dot, a dash or an
/// underscore.
pub open spec fn is_safe_char(c: char) -> bool {
    ||| c as u32 >= 128
    ||| '0' <= c <= '9'
    ||| 'A' <= c <= 'Z'
    ||| 'a' <= c <= 'z'
    ||| c == '.'
    ||| c == '-'
    ||| c == '_'
}

/// A name that cannot leave the directory it is put in: it has between one and
/// 96 characters, does not begin with a dot, and holds no path separator nor
/// any other unsafe character.
pub open spec fn is_safe_name(s: Seq<char>) -> bool {
    &&& 0 < s.len() <= 96
    &&& s[0] != '.'
    &&& forall|i: int| 0 <= i < s.len() ==> is_safe_char(#[trigger] s[i])
}

/// A safe name names a file, not a path: it holds neither `/` nor `\\` nor `:`,
/// and is neither `.` nor `..`.
pub proof fn law_safe_name_is_no_path(s: Seq<char>)
    requires
        is_safe_name(s),
    ensures
        is_plain_name(s),
{
    reveal_strlit(".");
    reveal_strlit("..");
}

/// All characters are safe, or blanks where `blanks`.
spec fn all_safe(s: Seq<char>, blanks: bool) -> bool {
    forall|i: int| 0 <= i < s.len() ==> is_safe_char(#[trigger] s[i]) || (blanks && s[i] == ' ')
}

proof fn lemma_replaced_chars(s: Seq<char>)
    requires
        all_safe(s, true),
    ensures
        all_safe(replaced(s, ' ', seq!['_']), false),
    decreases s.len(),
{
    if s.len() > 0 {
        let front = s.drop_last();
        assert(all_safe(front, true)) by {
            assert forall|i: int| 0 <= i < front.len() implies is_safe_char(#[trigger] front[i])
                || front[i] == ' ' by {
                assert(front[i] == s[i]);
            }
        }
        lemma_replaced_chars(front);
        let r = replaced(front, ' ', seq!['_']);
        let c = s[s.len() - 1];
        let add = if c == ' ' {
            '_'
        } else {
            c
        };
        assert(replaced(s, ' ', seq!['_']) =~= r.push(add));
        assert forall|i: int| 0 <= i < r.push(add).len() implies is_safe_char(
            #[trigger] r.push(add)[i],
        ) by {
            if i < r.len() {
                assert(r.push(add)[i] == r[i]);
            }
        }
    }
}

/// Trimming takes characters away from the ends only.
pub proof fn lemma_trimmed_part(s: Seq<char>)
    ensures
        exists|a: int, b: int|
            0 <= a <= b <= s.len() && #[trigger] s.subrange(a, b) == trimmed(s),
{
    lemma_trimmed_start_part(s);
    let t = crate::text::trimmed_start(s);
    lemma_trimmed_end_part(t);
    let a = s.len() - t.len();
    let b = a + trimmed(s).len();
    assert(s.subrange(a, b) =~= trimmed(s));
}

proof fn lemma_trimmed_start_part(s: Seq<char>)
    ensures
        crate::text::trimmed_start(s).len() <= s.len(),
        crate::text::trimmed_start(s) == s.skip(s.len() - crate::text::trimmed_start(s).len()),
    decreases s.len(),
{
    if s.len() > 0 && crate::text::is_white_space(s[0]) {
        lemma_trimmed_start_part(s.drop_first());
        let r = crate::text::trimmed_start(s);
        assert(s.drop_first().skip(s.drop_first().len() - r.len()) =~= s.skip(s.len() - r.len()));
    } else {
        assert(s.skip(0) =~= s);
    }
}

proof fn lemma_trimmed_end_part(s: Seq<char>)
    ensures
        crate::text::trimmed_end(s).len() <= s.len(),
        crate::text::trimmed_end(s) == s.take(crate::text::trimmed_end(s).len() as int),
    decreases s.len(),
{
    if s.len() > 0 && crate::text::is_white_space(s.last()) {
        lemma_trimmed_end_part(s.drop_last());
        let r = crate::text::trimmed_end(s);
        assert(s.drop_last().take(r.len() as int) =~= s.take(r.len() as int));
    } else {
        assert(s.take(s.len() as int) =~= s);
    }
}

proof fn lemma_with_txt(s: Seq<char>)
    requires
        all_safe(s, false),
        s.len() > 0,
    ensures
        all_safe(with_txt(s), false),
        with_txt(s).len() > 0,
        with_txt(s).len() <= s.len() + 4,
        with_txt(s)[0] == s[0],
{
    reveal_strlit(".txt");
    assert forall|i: int| 0 <= i < with_txt(s).len() implies is_safe_char(
        #[trigger] with_txt(s)[i],
    ) by {
        if i < s.len() {
            assert(with_txt(s)[i] == s[i]);
        }
    }
}

proof fn lemma_underscored(source: Seq<char>)
    requires
        all_safe(masked(source), true),
    ensures
        all_safe(underscored(source), false),
{
    let m = masked(source);
    lemma_trimmed_part(m);
    let (a, b) = choose|a: int, b: int|
        0 <= a <= b <= m.len() && #[trigger] m.subrange(a, b) == trimmed(m);
    assert(all_safe(trimmed(m), true)) by {
        assert forall|i: int| 0 <= i < trimmed(m).len() implies is_safe_char(
            #[trigger] trimmed(m)[i],
        ) || trimmed(m)[i] == ' ' by {
            assert(trimmed(m)[i] == m[a + i]);
        }
    }
    lemma_replaced_chars(trimmed(m));
}

proof fn lemma_or_upload(s: Seq<char>)
    requires
        all_safe(s, false),
    ensures
        all_safe(or_upload(s), false),
        or_upload(s).len() > 0,
        s.len() == 0 ==> or_upload(s)[0] != '.',
{
    reveal_strlit("upload.txt");
}

proof fn lemma_dots_safe(s: Seq<char>)
    requires
        all_safe(s, false),
    ensures
        all_safe(without_leading_dots(s), false),
{
    lemma_without_leading_dots(s);
    let r = without_leading_dots(s);
    assert forall|i: int| 0 <= i < r.len() implies is_safe_char(#[trigger] r[i]) by {
        assert(r[i] == s[s.len() - r.len() + i]);
    }
}

proof fn lemma_shortened(s: Seq<char>)
    requires
        all_safe(s, false),
        s.len() > 0,
        s[0] != '.',
    ensures
        is_safe_name(shortened(s)),
{
    if s.len() > 96 {
        let head = s.take(92);
        assert(all_safe(head, false)) by {
            assert forall|i: int| 0 <= i < head.len() implies is_safe_char(#[trigger] head[i]) by {
                assert(head[i] == s[i]);
            }
        }
        lemma_with_txt(head);
    }
}

proof fn lemma_stored_name_safe(file_name: Option<Seq<char>>, source: Seq<char>)
    requires
        source == trimmed(
            match file_name {
                Some(n) => n,
                None => "upload.txt"@,
            },
        ),
        all_safe(masked(source), true),
    ensures
        is_safe_name(stored_name(file_name)),
{
    lemma_underscored(source);
    let a = underscored(source);
    lemma_or_upload(a);
    lemma_with_txt(or_upload(a));
    let b = with_txt(or_upload(a));
    lemma_dots_safe(b);
    lemma_without_leading_dots(b);
    let c = without_leading_dots(b);
    lemma_or_upload(c);
    lemma_shortened(or_upload(c));
}

// ---------------------------------------------------------------------------
// Summaries
// ---------------------------------------------------------------------------

/// The first six different lines, each cut to 120 characters.
pub open spec fn first_lines(lines: Seq<Seq<char>>) -> Seq<Seq<char>>
    decreases lines.len(),
{
    if lines.len() == 0 {
        Seq::empty()
    } else {
        let before = first_lines(lines.drop_last());
        let line = clipped(lines.last(), 120);
        if before.len() < 6 && !before.contains(line) {
            before.push(line)
        } else {
            before
        }
    }
}

/// The summary of a text file.
pub open spec fn txt_summary(content: Seq<char>) -> Seq<char> {
    let lines = first_lines(filled_lines(content));
    if lines.len() == 0 {
        clipped(flattened(content), 320)
    } else {
        clipped(joined(lines, " | "@), 600)
    }
}

/// The summary of a text file.
pub fn summarize_txt_content(content: &str) -> (r: String)
    ensures
        r@ == txt_summary(content@),
{
    let raw = split_filled_lines(content);
    let ghost all = texts(raw@);
    let mut lines: Vec<String> = Vec::new();
    assert(texts(lines@) =~= first_lines(all.take(0)));
    for i in 0..raw.len()
        invariant
            all == texts(raw@),
            texts(lines@) == first_lines(all.take(i as int)),
    {
        assert(all.take(i + 1).drop_last() =~= all.take(i as int));
        assert(all.take(i + 1).last() == raw@[i as int]@);
        assert(texts(lines@).len() == lines@.len());
        if lines.len() < 6 {
            let line = clip_chars(&raw[i], 120);
            if !text_in(&lines, &line) {
                let ghost next = texts(lines@).push(line@);
                lines.push(line);
                assert(texts(lines@) =~= next);
            }
        }
    }
    assert(all.take(raw@.len() as int) =~= all);
    assert(texts(lines@).len() == lines@.len());
    if lines.len() == 0 {
        return clip_chars(&flatten_spaces(content), 320);
    }
    clip_chars(&join(&lines, " | "), 600)
}

/// Whether a message asks for the text of a file itself, when `lower` is the
/// message in lower case.
pub open spec fn wants_raw_text(text: Seq<char>, lower: Seq<char>) -> bool {
    &&& {
        ||| has_part(lower, "txt"@)
        ||| has_part(lower, "file"@)
        ||| has_part(text, "文件"@)
        ||| has_part(text, "附件"@)
    }
    &&& {
        ||| has_part(lower, "full text"@)
        ||| has_part(lower, "original text"@)
        ||| has_part(lower, "verbatim"@)
        ||| has_part(lower, "quote"@)
        ||| has_part(text, "原文"@)
        ||| has_part(text, "全文"@)
        ||| has_part(text, "逐字"@)
        ||| has_part(text, "引用"@)
        ||| has_part(text, "完整内容"@)
        ||| has_part(text, "文件内容"@)
    }
}

/// Whether a message asks for the text of a file itself, when `lower` is the
/// message in lower case.
pub fn raw_text_wanted(text: &str, lower: &str) -> (r: bool)
    ensures
        r == wants_raw_text(text@, lower@),
{
    let file = contains(lower, "txt") || contains(lower, "file") || contains(text, "文件")
        || contains(text, "附件");
    let raw = contains(lower, "full text") || contains(lower, "original text") || contains(
        lower,
        "verbatim",
    ) || contains(lower, "quote") || contains(text, "原文") || contains(text, "全文") || contains(
        text,
        "逐字",
    ) || contains(text, "引用") || contains(text, "完整内容") || contains(text, "文件内容");
    file && raw
}

/// Whether a message asks for the text of a file itself.
pub fn looks_like_raw_txt_request(user_text: &str) -> (r: bool)
    ensures
        r == wants_raw_text(user_text@, lowercase(user_text@)),
{
    raw_text_wanted(user_text, &user_text.to_lowercase())
}

} // verus!
