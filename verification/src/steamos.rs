//! SteamOS detection, Roblox's fullscreen setting, and adding shortcuts to the Steam library.
use vstd::prelude::*;
use crate::text::{
    concat, contains, contains_spec, copy_str, lemma_split_nonempty,
    lemma_split_pieces_avoid, lemma_split_plain, lemma_split_sep, lemma_split_two, matches_at, split_char, split_spec,
    str_eq, views,
};

verus! {

/// The word that marks the fullscreen setting in Roblox's settings file.
pub open spec fn fullscreen_word() -> Seq<char> {
    seq!['F', 'u', 'l', 'l', 's', 'c', 'r', 'e', 'e', 'n']
}

/// `true` or `false`, as Rust writes a boolean.
pub open spec fn bool_text(b: bool) -> Seq<char> {
    if b {
        seq!['t', 'r', 'u', 'e']
    } else {
        seq!['f', 'a', 'l', 's', 'e']
    }
}

/// The text that closes the fullscreen element.
pub open spec fn bool_close() -> Seq<char> {
    seq!['<', '/', 'b', 'o', 'o', 'l', '>']
}

/// The value held by a settings line: the text after its first `>` and before the next `<`.
pub open spec fn line_value(line: Seq<char>) -> Seq<char> {
    split_spec(split_spec(line, '>')[1], '<')[0]
}

/// The value of the last line that mentions the fullscreen setting, if any.
pub open spec fn fullscreen_value(lines: Seq<Seq<char>>) -> Option<Seq<char>>
    decreases lines.len(),
{
    if lines.len() == 0 {
        None
    } else if contains_spec(lines.last(), fullscreen_word()) {
        Some(line_value(lines.last()))
    } else {
        fullscreen_value(lines.drop_last())
    }
}

/// Every line that mentions the fullscreen setting holds a `>`.
pub open spec fn fullscreen_lines_closed(lines: Seq<Seq<char>>) -> bool {
    forall|i: int| 0 <= i < lines.len() && contains_spec(#[trigger] lines[i], fullscreen_word())
        ==> split_spec(lines[i], '>').len() >= 2
}

/// A settings line with its fullscreen value set to `toggle`: a line that mentions the
/// setting keeps the text before its first `>` and gets `>toggle</bool>` after it.
pub open spec fn rewrite_line(line: Seq<char>, toggle: bool) -> Seq<char> {
    if contains_spec(line, fullscreen_word()) {
        split_spec(line, '>')[0] + seq!['>'] + bool_text(toggle) + bool_close()
    } else {
        line
    }
}

/// The lines rewritten, each followed by a line break.
pub open spec fn rewrite_lines(lines: Seq<Seq<char>>, toggle: bool) -> Seq<char>
    decreases lines.len(),
{
    if lines.len() == 0 {
        Seq::empty()
    } else {
        rewrite_lines(lines.drop_last(), toggle) + rewrite_line(lines.last(), toggle) + seq!['\n']
    }
}

/// A byte that URL encoding leaves as it is: an ASCII letter or digit, `-`, `.`, `_` or `~`.
pub open spec fn url_unreserved(b: u8) -> bool {
    (0x30 <= b <= 0x39) || (0x41 <= b <= 0x5a) || (0x61 <= b <= 0x7a) || b == 0x2d || b == 0x2e
        || b == 0x5f || b == 0x7e
}

/// The upper-case hexadecimal digit for `d` (below 16).
pub open spec fn hex_digit(d: u8) -> char {
    if d < 10 {
        (0x30 + d) as char
    } else {
        (0x41 - 10 + d) as char
    }
}

/// Percent-encoding of the bytes `bs`: unreserved bytes stay, every other byte becomes `%`
/// and two upper-case hexadecimal digits.
pub open spec fn url_encode_bytes(bs: Seq<u8>) -> Seq<char>
    decreases bs.len(),
{
    if bs.len() == 0 {
        Seq::empty()
    } else {
        let b = bs.last();
        url_encode_bytes(bs.drop_last()) + if url_unreserved(b) {
            seq![b as char]
        } else {
            seq!['%', hex_digit(b >> 4u8), hex_digit(b & 15u8)]
        }
    }
}

/// Percent-encoding of the text `s`, byte by byte of its UTF-8 encoding.
pub open spec fn url_encode_spec(s: Seq<char>) -> Seq<char> {
    url_encode_bytes(vstd::utf8::encode_utf8(s))
}

/// Percent-encodes `data`.
/// Calls `urlencoding::encode`, which percent-encodes every byte of the UTF-8 text except
/// ASCII letters, digits, `-`, `.`, `_` and `~`, writing the hexadecimal digits in upper case.
#[verifier::external_body]
fn url_encode(data: &str) -> (res: String)
    ensures
        res@ == url_encode_spec(data@),
{
    urlencoding::encode(data).into_owned()
}

/// The prefix of Steam's link that adds a program to the library.
pub open spec fn add_non_steam_game_prefix() -> Seq<char> {
    seq!['s', 't', 'e', 'a', 'm', ':', '/', '/', 'a', 'd', 'd', 'n', 'o', 'n', 's', 't', 'e', 'a', 'm', 'g', 'a', 'm', 'e', '/']
}

/// The key that names a desktop entry.
pub open spec fn name_key() -> Seq<char> {
    seq!['N', 'a', 'm', 'e', '=']
}

/// What adding a desktop shortcut to the Steam library takes: the name shown, and the link
/// that Steam is started with.
pub struct SteamLibraryEntry {
    pub application_name: String,
    pub url: String,
}

/// The entry that adds the desktop shortcut at `path` to the Steam library, from the lines
/// of that shortcut: its name is the second line without `Name=`, and its link is
/// `steam://addnonsteamgame/` followed by the percent-encoded path.
pub fn add_item_to_steam_library(path: &str, desktop_file_lines: &Vec<String>) -> (res: SteamLibraryEntry)
    requires
        desktop_file_lines@.len() >= 2,
    ensures
        res.application_name@ == crate::text::remove_all_spec(desktop_file_lines@[1]@, name_key()),
        res.url@ == add_non_steam_game_prefix() + url_encode_spec(path@),
{
    proof {
        reveal_strlit("Name=");
        reveal_strlit("steam://addnonsteamgame/");
        assert("Name="@ =~= name_key());
        assert("steam://addnonsteamgame/"@ =~= add_non_steam_game_prefix());
    }
    let application_name = crate::text::remove_all(desktop_file_lines[1].as_str(), "Name=");
    let encoded = url_encode(path);
    let url = concat("steam://addnonsteamgame/", encoded.as_str());
    SteamLibraryEntry { application_name, url }
}

/// The `KEY=VALUE` lines of `/etc/os-release`, each split at every `=`.
pub fn parse_osrelease(lines: &Vec<String>) -> (res: Vec<Vec<String>>)
    ensures
        res@.len() == lines@.len(),
        forall|i: int| 0 <= i < lines@.len() ==> views(#[trigger] res@[i]@) == split_spec(lines@[i]@, '='),
{
    let mut res: Vec<Vec<String>> = Vec::new();
    for i in 0..lines.len()
        invariant
            res@.len() == i,
            forall|k: int| 0 <= k < i ==> views(#[trigger] res@[k]@) == split_spec(lines@[k]@, '='),
    {
        res.push(split_char(lines[i].as_str(), '='));
    }
    res
}

/// The word `ID`.
pub open spec fn id_key() -> Seq<char> {
    seq!['I', 'D']
}

/// The word `steamos`.
pub open spec fn steamos_id() -> Seq<char> {
    seq!['s', 't', 'e', 'a', 'm', 'o', 's']
}

/// Each parsed line has a key, and an `ID` line has a value.
pub open spec fn osrelease_well_formed(osrelease: Seq<Vec<String>>) -> bool {
    forall|i: int| 0 <= i < osrelease.len() ==> {
        &&& (#[trigger] osrelease[i])@.len() >= 1
        &&& (osrelease[i]@[0]@ == id_key() ==> osrelease[i]@.len() >= 2)
    }
}

/// Some parsed line of `/etc/os-release` reads `ID=steamos`.
pub open spec fn names_steamos(osrelease: Seq<Vec<String>>) -> bool {
    exists|i: int| 0 <= i < osrelease.len() && (#[trigger] osrelease[i])@[0]@ == id_key()
        && osrelease[i]@[1]@ == steamos_id()
}

/// Whether the parsed lines of `/etc/os-release` name the system `steamos`.
fn osrelease_names_steamos(osrelease: &Vec<Vec<String>>) -> (res: bool)
    requires
        osrelease_well_formed(osrelease@),
    ensures
        res == names_steamos(osrelease@),
{
    proof {
        reveal_strlit("ID");
        reveal_strlit("steamos");
    }
    let mut is_steamos = false;
    for i in 0..osrelease.len()
        invariant
            osrelease_well_formed(osrelease@),
            "ID"@ == id_key(),
            "steamos"@ == steamos_id(),
            is_steamos == exists|k: int| 0 <= k < i && (#[trigger] osrelease@[k])@[0]@ == id_key()
                && osrelease@[k]@[1]@ == steamos_id(),
    {
        let line = &osrelease[i];
        assert(line@ == osrelease@[i as int]@);
        if str_eq(line[0].as_str(), "ID") {
            if str_eq(line[1].as_str(), "steamos") {
                is_steamos = true;
            }
        }
    }
    is_steamos
}

/// Whether the system is SteamOS, given the parsed lines of `/etc/os-release`: some line
/// reads `ID=steamos`. Without the file (`None`) the system is taken not to be SteamOS.
pub fn is_running_on_steamos(osrelease: &Option<Vec<Vec<String>>>) -> (res: bool)
    requires
        osrelease matches Some(lines) ==> osrelease_well_formed(lines@),
    ensures
        res == match osrelease {
            Some(lines) => names_steamos(lines@),
            None => false,
        },
{
    match osrelease {
        Some(lines) => osrelease_names_steamos(lines),
        None => false,
    }
}

/// Whether Steam runs in Big Picture mode on a Steam Deck: both `SteamOS` and
/// `SteamGamepadUI` are set to `1` (an unset variable reads as the empty string).
pub fn is_running_deck_big_picture_mode(steam_os: &str, steam_gamepad_ui: &str) -> (res: bool)
    ensures
        res == (steam_os@ == seq!['1'] && steam_gamepad_ui@ == seq!['1']),
{
    proof {
        reveal_strlit("1");
        assert("1"@ =~= seq!['1']);
    }
    let a = str_eq(steam_os, "1");
    let b = str_eq(steam_gamepad_ui, "1");
    a && b
}

/// The fullscreen value in the text of Roblox's settings file: that of the last line
/// mentioning `Fullscreen`, if any.
pub fn get_fullscreen_value_from_rbxxml(rbxxml: &str) -> (res: Option<String>)
    requires
        fullscreen_lines_closed(split_spec(rbxxml@, '\n')),
    ensures
        match res {
            Some(v) => fullscreen_value(split_spec(rbxxml@, '\n')) == Some(v@),
            None => fullscreen_value(split_spec(rbxxml@, '\n')) is None,
        },
{
    proof {
        reveal_strlit("Fullscreen");
    }
    let lines = split_char(rbxxml, '\n');
    let ghost ls = views(lines@);
    let mut fullscreen_value_found: Option<String> = None;
    assert(ls.take(0) =~= Seq::<Seq<char>>::empty());
    for i in 0..lines.len()
        invariant
            ls == views(lines@),
            ls == split_spec(rbxxml@, '\n'),
            "Fullscreen"@ == fullscreen_word(),
            fullscreen_lines_closed(ls),
            match fullscreen_value_found {
                Some(v) => fullscreen_value(ls.take(i as int)) == Some(v@),
                None => fullscreen_value(ls.take(i as int)) is None,
            },
    {
        let line = lines[i].as_str();
        assert(line@ == ls[i as int]);
        assert(ls.take(i + 1).drop_last() =~= ls.take(i as int));
        if contains(line, "Fullscreen") {
            let parts = split_char(line, '>');
            assert(views(parts@)[1] == parts@[1]@);
            let inner = split_char(parts[1].as_str(), '<');
            proof {
                lemma_split_nonempty(parts@[1]@, '<');
            }
            assert(views(inner@)[0] == inner@[0]@);
            fullscreen_value_found = Some(copy_str(inner[0].as_str()));
        }
    }
    assert(ls.take(lines@.len() as int) =~= ls);
    fullscreen_value_found
}

/// The text of Roblox's settings file with its fullscreen value set to `toggle`: every line
/// that mentions `Fullscreen` is rewritten to end in `>true</bool>` or `>false</bool>`, and
/// every line is followed by a line break.
pub fn set_rbx_fullscreen_value(rbxxml: &str, toggle: bool) -> (res: String)
    ensures
        res@ == rewrite_lines(split_spec(rbxxml@, '\n'), toggle),
{
    proof {
        reveal_strlit("Fullscreen");
        reveal_strlit(">");
        reveal_strlit("true");
        reveal_strlit("false");
        reveal_strlit("</bool>");
        reveal_strlit("\n");
    }
    let lines = split_char(rbxxml, '\n');
    let ghost ls = views(lines@);
    let mut new_rbxxml = String::new();
    let value = if toggle { "true" } else { "false" };
    assert(ls.take(0) =~= Seq::<Seq<char>>::empty());
    for i in 0..lines.len()
        invariant
            ls == views(lines@),
            "Fullscreen"@ == fullscreen_word(),
            ">"@ == seq!['>'],
            "</bool>"@ == bool_close(),
            "\n"@ == seq!['\n'],
            value@ == bool_text(toggle),
            new_rbxxml@ == rewrite_lines(ls.take(i as int), toggle),
    {
        let line = lines[i].as_str();
        assert(line@ == ls[i as int]);
        assert(ls.take(i + 1).drop_last() =~= ls.take(i as int));
        if contains(line, "Fullscreen") {
            let parts = split_char(line, '>');
            proof {
                lemma_split_nonempty(line@, '>');
            }
            assert(views(parts@)[0] == parts@[0]@);
            let head = concat(parts[0].as_str(), ">");
            let head = concat(head.as_str(), value);
            let rewritten = concat(head.as_str(), "</bool>");
            new_rbxxml.append(rewritten.as_str());
        } else {
            new_rbxxml.append(line);
        }
        new_rbxxml.append("\n");
    }
    assert(ls.take(lines@.len() as int) =~= ls);
    new_rbxxml
}

/// The lines rewritten, without their line breaks.
pub open spec fn rewritten_lines(lines: Seq<Seq<char>>, toggle: bool) -> Seq<Seq<char>> {
    Seq::new(lines.len(), |i: int| rewrite_line(lines[i], toggle))
}

/// What a rewritten line gets after the text before its first `>`.
pub open spec fn rewrite_tail(toggle: bool) -> Seq<char> {
    seq!['>'] + bool_text(toggle) + bool_close()
}

proof fn lemma_concat_avoids(a: Seq<char>, b: Seq<char>, x: char)
    requires
        !a.contains(x),
        !b.contains(x),
    ensures
        !(a + b).contains(x),
{
    if (a + b).contains(x) {
        let i = choose|i: int| 0 <= i < (a + b).len() && (a + b)[i] == x;
        if i < a.len() {
            assert(a[i] == x);
        } else {
            assert(b[i - a.len()] == x);
        }
    }
}

proof fn lemma_tail_chars(toggle: bool)
    ensures
        !rewrite_tail(toggle).contains('F'),
        !rewrite_tail(toggle).contains('\n'),
        !bool_text(toggle).contains('>'),
        !bool_text(toggle).contains('<'),
        !fullscreen_word().contains('>'),
        rewrite_tail(toggle) == seq!['>'] + (bool_text(toggle) + seq!['<', '/', 'b', 'o', 'o', 'l']) + seq!['>'],
{
    let t = rewrite_tail(toggle);
    assert(t =~= seq!['>'] + (bool_text(toggle) + seq!['<', '/', 'b', 'o', 'o', 'l']) + seq!['>']);
    assert forall|i: int| 0 <= i < t.len() implies t[i] != 'F' && t[i] != '\n' by {
        if toggle {
            assert(t =~= seq!['>', 't', 'r', 'u', 'e', '<', '/', 'b', 'o', 'o', 'l', '>']);
        } else {
            assert(t =~= seq!['>', 'f', 'a', 'l', 's', 'e', '<', '/', 'b', 'o', 'o', 'l', '>']);
        }
    }
    let b = bool_text(toggle);
    assert forall|i: int| 0 <= i < b.len() implies b[i] != '>' && b[i] != '<' by {}
    let f = fullscreen_word();
    assert forall|i: int| 0 <= i < f.len() implies f[i] != '>' by {}
}

/// A rewritten line mentions the setting exactly when the text before its first `>` did.
proof fn lemma_rewrite_mentions(line: Seq<char>, toggle: bool)
    requires
        contains_spec(line, fullscreen_word()),
    ensures
        contains_spec(rewrite_line(line, toggle), fullscreen_word()) == contains_spec(
            split_spec(line, '>')[0],
            fullscreen_word(),
        ),
{
    lemma_split_nonempty(line, '>');
    lemma_tail_chars(toggle);
    let f = fullscreen_word();
    let p = split_spec(line, '>')[0];
    let tail = rewrite_tail(toggle);
    let w = rewrite_line(line, toggle);
    assert(w =~= p + tail);
    if contains_spec(p, f) {
        let i = choose|i: int| matches_at(p, f, i);
        assert(w.subrange(i, i + f.len()) =~= p.subrange(i, i + f.len()));
        assert(matches_at(w, f, i));
    }
    if contains_spec(w, f) {
        let i = choose|i: int| matches_at(w, f, i);
        if i + f.len() <= p.len() {
            assert(w.subrange(i, i + f.len()) =~= p.subrange(i, i + f.len()));
            assert(matches_at(p, f, i));
        } else if i <= p.len() {
            assert(w[p.len() as int] == '>');
            assert(w.subrange(i, i + f.len())[p.len() - i] == w[p.len() as int]);
            assert(f[p.len() - i] == '>');
            assert(false);
        } else {
            assert(w.subrange(i, i + f.len())[0] == w[i]);
            assert(f[0] == 'F');
            assert(tail[i - p.len()] == 'F');
            assert(false);
        }
    }
}

/// A rewritten line that mentions the setting holds the value written, and a `>`.
proof fn lemma_rewrite_value(line: Seq<char>, toggle: bool)
    requires
        contains_spec(line, fullscreen_word()),
    ensures
        split_spec(rewrite_line(line, toggle), '>').len() >= 2,
        line_value(rewrite_line(line, toggle)) == bool_text(toggle),
{
    lemma_split_nonempty(line, '>');
    lemma_tail_chars(toggle);
    lemma_split_pieces_avoid(line, '>', '>');
    let p = split_spec(line, '>')[0];
    let b = bool_text(toggle);
    let mid = b + seq!['<', '/', 'b', 'o', 'o', 'l'];
    let w = rewrite_line(line, toggle);
    assert(!mid.contains('>')) by {
        assert(!seq!['<', '/', 'b', 'o', 'o', 'l'].contains('>')) by {
            let q = seq!['<', '/', 'b', 'o', 'o', 'l'];
            assert forall|i: int| 0 <= i < q.len() implies q[i] != '>' by {}
        }
        lemma_concat_avoids(b, seq!['<', '/', 'b', 'o', 'o', 'l'], '>');
    }
    assert(w =~= (p.push('>') + mid).push('>'));
    lemma_split_sep(p.push('>') + mid, '>');
    lemma_split_two(p, mid, '>');
    assert(split_spec(w, '>')[1] == mid);
    let q = seq!['/', 'b', 'o', 'o', 'l'];
    assert(mid =~= b.push('<') + q);
    assert(!q.contains('<')) by {
        assert forall|i: int| 0 <= i < q.len() implies q[i] != '<' by {}
    }
    lemma_split_two(b, q, '<');
    assert(split_spec(mid, '<')[0] == b);
}

proof fn lemma_rewrite_no_newline(line: Seq<char>, toggle: bool)
    requires
        !line.contains('\n'),
    ensures
        !rewrite_line(line, toggle).contains('\n'),
{
    if contains_spec(line, fullscreen_word()) {
        lemma_split_nonempty(line, '>');
        lemma_split_pieces_avoid(line, '>', '\n');
        lemma_tail_chars(toggle);
        let p = split_spec(line, '>')[0];
        lemma_concat_avoids(p, rewrite_tail(toggle), '\n');
        assert(rewrite_line(line, toggle) =~= p + rewrite_tail(toggle));
    }
}

/// Splitting the rewritten text at its line breaks gives back the rewritten lines, and an
/// empty line after the last break.
proof fn lemma_split_rewritten(lines: Seq<Seq<char>>, toggle: bool)
    requires
        forall|i: int| 0 <= i < lines.len() ==> !(#[trigger] lines[i]).contains('\n'),
    ensures
        split_spec(rewrite_lines(lines, toggle), '\n') == rewritten_lines(lines, toggle).push(Seq::<char>::empty()),
    decreases lines.len(),
{
    if lines.len() == 0 {
        assert(rewritten_lines(lines, toggle).push(Seq::<char>::empty()) =~= seq![Seq::<char>::empty()]);
    } else {
        let l0 = lines.drop_last();
        assert forall|i: int| 0 <= i < l0.len() implies !(#[trigger] l0[i]).contains('\n') by {
            assert(l0[i] == lines[i]);
        }
        lemma_split_rewritten(l0, toggle);
        let r0 = rewrite_lines(l0, toggle);
        let w = rewrite_line(lines.last(), toggle);
        assert(!lines.last().contains('\n')) by {
            assert(lines[lines.len() - 1] == lines.last());
        }
        lemma_rewrite_no_newline(lines.last(), toggle);
        assert(rewrite_lines(lines, toggle) =~= (r0 + w).push('\n'));
        lemma_split_sep(r0 + w, '\n');
        lemma_split_plain(r0, w, '\n');
        let m0 = rewritten_lines(l0, toggle);
        assert(Seq::<char>::empty() + w =~= w);
        assert(m0.push(Seq::<char>::empty()).update(m0.len() as int, Seq::<char>::empty() + w) =~= rewritten_lines(lines, toggle));
    }
}

proof fn lemma_value_of_rewritten(lines: Seq<Seq<char>>, toggle: bool)
    requires
        exists|i: int| 0 <= i < lines.len() && contains_spec(#[trigger] rewrite_line(lines[i], toggle), fullscreen_word()),
    ensures
        fullscreen_value(rewritten_lines(lines, toggle)) == Some(bool_text(toggle)),
    decreases lines.len(),
{
    let m = rewritten_lines(lines, toggle);
    let last = lines.last();
    assert(m.last() == rewrite_line(last, toggle));
    assert(m.drop_last() =~= rewritten_lines(lines.drop_last(), toggle));
    if contains_spec(rewrite_line(last, toggle), fullscreen_word()) {
        assert(contains_spec(last, fullscreen_word()));
        lemma_rewrite_value(last, toggle);
    } else {
        let i = choose|i: int| 0 <= i < lines.len() && contains_spec(#[trigger] rewrite_line(lines[i], toggle), fullscreen_word());
        assert(i < lines.len() - 1);
        assert(lines.drop_last()[i] == lines[i]);
        lemma_value_of_rewritten(lines.drop_last(), toggle);
    }
}

/// Setting the fullscreen value and reading it back gives the value set, provided some
/// line names `Fullscreen` before its first `>` (as `<bool name="Fullscreen">` does); the
/// rewritten text can be read back, every line that mentions the setting holding a `>`.
pub proof fn fullscreen_set_then_get(rbxxml: Seq<char>, toggle: bool)
    requires
        exists|i: int| 0 <= i < split_spec(rbxxml, '\n').len()
            && contains_spec(#[trigger] split_spec(rbxxml, '\n')[i], fullscreen_word())
            && contains_spec(split_spec(split_spec(rbxxml, '\n')[i], '>')[0], fullscreen_word()),
    ensures
        fullscreen_lines_closed(split_spec(rewrite_lines(split_spec(rbxxml, '\n'), toggle), '\n')),
        fullscreen_value(split_spec(rewrite_lines(split_spec(rbxxml, '\n'), toggle), '\n')) == Some(bool_text(toggle)),
{
    let lines = split_spec(rbxxml, '\n');
    lemma_split_pieces_avoid(rbxxml, '\n', '\n');
    lemma_split_rewritten(lines, toggle);
    let m = rewritten_lines(lines, toggle);
    let g = m.push(Seq::<char>::empty());
    let i = choose|i: int| 0 <= i < lines.len() && contains_spec(#[trigger] lines[i], fullscreen_word())
        && contains_spec(split_spec(lines[i], '>')[0], fullscreen_word());
    lemma_rewrite_mentions(lines[i], toggle);
    lemma_value_of_rewritten(lines, toggle);
    assert(!contains_spec(Seq::<char>::empty(), fullscreen_word()));
    assert(g.drop_last() =~= m);
    assert forall|j: int| 0 <= j < g.len() && contains_spec(#[trigger] g[j], fullscreen_word())
        implies split_spec(g[j], '>').len() >= 2 by {
        assert(j < m.len());
        if !contains_spec(lines[j], fullscreen_word()) {
            assert(g[j] == lines[j]);
        }
        lemma_rewrite_value(lines[j], toggle);
    }
}

} // verus!
