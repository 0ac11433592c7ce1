//! The commands typed at the interactive prompt. A line is cut into words at
//! white space; the first word names the command and the others are its
//! arguments.
use vstd::prelude::*;

verus! {

/// Whether `c` is white space: the characters with the Unicode `White_Space`
/// property.
pub open spec fn is_whitespace(c: char) -> bool {
    let v: u32 = c as u32;
    ||| 0x9 <= v && v <= 0xd
    ||| v == 0x20
    ||| v == 0x85
    ||| v == 0xa0
    ||| v == 0x1680
    ||| 0x2000 <= v && v <= 0x200a
    ||| v == 0x2028
    ||| v == 0x2029
    ||| v == 0x202f
    ||| v == 0x205f
    ||| v == 0x3000
}

/// The words of `s`, from left to right: its longest runs of characters
/// that are not white space.
pub open spec fn words(s: Seq<char>) -> Seq<Seq<char>>
    decreases s.len(),
{
    if s.len() == 0 {
        seq![]
    } else {
        let prev = words(s.drop_last());
        let c: char = s.last();
        if is_whitespace(c) {
            prev
        } else if s.len() >= 2 && !is_whitespace(s[s.len() - 2]) {
            prev.update(prev.len() - 1, prev.last().push(c))
        } else {
            prev.push(seq![c])
        }
    }
}

/// Whether every word of `ws` is non-empty and free of white space.
pub open spec fn clean_words(ws: Seq<Seq<char>>) -> bool {
    forall|i: int|
        0 <= i < ws.len() ==> #[trigger] ws[i].len() > 0 && forall|j: int|
            0 <= j < ws[i].len() ==> !is_whitespace(#[trigger] ws[i][j])
}

/// A word is never empty and holds no white space; the last word of a line
/// that does not end in white space ends with the line's last character.
pub proof fn law_words_are_clean(s: Seq<char>)
    ensures
        clean_words(words(s)),
        s.len() > 0 && !is_whitespace(s.last()) ==> words(s).len() > 0 && words(s).last().last()
            == s.last(),
    decreases s.len(),
{
    if s.len() > 0 {
        let prev_s = s.drop_last();
        law_words_are_clean(prev_s);
        let prev = words(prev_s);
        let c: char = s.last();
        if !is_whitespace(c) && s.len() >= 2 && !is_whitespace(s[s.len() - 2]) {
            assert(prev_s.last() == s[s.len() - 2]);
            let w = prev.last().push(c);
            assert forall|i: int| 0 <= i < words(s).len() implies #[trigger] words(s)[i].len()
                > 0 && forall|j: int|
                0 <= j < words(s)[i].len() ==> !is_whitespace(#[trigger] words(s)[i][j]) by {
                if i == prev.len() - 1 {
                    assert(words(s)[i] == w);
                    assert forall|j: int| 0 <= j < w.len() implies !is_whitespace(
                        #[trigger] w[j],
                    ) by {
                        if j < w.len() - 1 {
                            assert(w[j] == prev[i][j]);
                        }
                    }
                }
            }
        }
    }
}

/// White space before and after the words changes none of them: trimming a
/// line before cutting it into words gives the same words.
pub proof fn law_words_ignore_outer_whitespace(pre: Seq<char>, s: Seq<char>, post: Seq<char>)
    requires
        forall|i: int| 0 <= i < pre.len() ==> is_whitespace(#[trigger] pre[i]),
        forall|i: int| 0 <= i < post.len() ==> is_whitespace(#[trigger] post[i]),
    ensures
        words(pre + s + post) == words(s),
    decreases post.len(), pre.len(),
{
    if post.len() > 0 {
        let shorter = post.drop_last();
        law_words_ignore_outer_whitespace(pre, s, shorter);
        assert((pre + s + post).drop_last() =~= pre + s + shorter);
        assert((pre + s + post).last() == post.last());
    } else if pre.len() > 0 {
        let c: char = pre[0];
        let rest = pre.subrange(1, pre.len() as int);
        law_words_ignore_outer_whitespace(rest, s, post);
        assert(pre + s + post =~= seq![c] + (rest + s + post));
        assert(rest + s + post =~= rest + s);
        lemma_words_skip_leading_whitespace(c, rest + s);
    } else {
        assert(pre + s + post =~= s);
    }
}

/// One white-space character before a line changes none of its words.
pub proof fn lemma_words_skip_leading_whitespace(c: char, s: Seq<char>)
    requires
        is_whitespace(c),
    ensures
        words(seq![c] + s) == words(s),
    decreases s.len(),
{
    let t = seq![c] + s;
    if s.len() == 0 {
        assert(t.drop_last() =~= Seq::<char>::empty());
        assert(t.last() == c);
        assert(s =~= Seq::<char>::empty());
        assert(words(t.drop_last()) == Seq::<Seq<char>>::empty());
        assert(words(t) == words(s));
    } else {
        lemma_words_skip_leading_whitespace(c, s.drop_last());
        assert(t.drop_last() =~= seq![c] + s.drop_last());
        assert(t.last() == s.last());
        if s.len() >= 2 {
            assert(t[t.len() - 2] == s[s.len() - 2]);
        } else {
            assert(t[t.len() - 2] == c);
        }
        assert(words(t.drop_last()) == words(s.drop_last()));
        assert(words(t) == words(s));
    }
}

/// The words joined with single spaces.
pub open spec fn join_words(ws: Seq<Seq<char>>) -> Seq<char>
    decreases ws.len(),
{
    if ws.len() == 0 {
        seq![]
    } else if ws.len() == 1 {
        ws[0]
    } else {
        join_words(ws.drop_last()) + seq![' '] + ws.last()
    }
}

/// A word written after white space, or at the start, becomes the next
/// word.
pub proof fn lemma_words_append_word(x: Seq<char>, w: Seq<char>)
    requires
        x.len() == 0 || is_whitespace(x.last()),
        w.len() > 0,
        forall|j: int| 0 <= j < w.len() ==> !is_whitespace(#[trigger] w[j]),
    ensures
        words(x + w) == words(x).push(w),
    decreases w.len(),
{
    let t = x + w;
    assert(t.drop_last() =~= x + w.drop_last());
    assert(t.last() == w.last());
    assert(!is_whitespace(w[w.len() - 1]));
    if w.len() == 1 {
        assert(x + w.drop_last() =~= x);
        if t.len() >= 2 {
            assert(t[t.len() - 2] == x.last());
        }
        assert(w =~= seq![w.last()]);
    } else {
        lemma_words_append_word(x, w.drop_last());
        assert(t[t.len() - 2] == w[w.len() - 2]);
        assert(words(t) =~= words(x).push(w.drop_last()).update(
            words(x).len() as int,
            w.drop_last().push(w.last()),
        ));
        assert(w.drop_last().push(w.last()) =~= w);
    }
}

/// Joining clean words with single spaces and cutting the result into words
/// gives the same words back.
pub proof fn law_join_then_split(ws: Seq<Seq<char>>)
    requires
        clean_words(ws),
    ensures
        words(join_words(ws)) == ws,
    decreases ws.len(),
{
    if ws.len() == 0 {
        assert(words(Seq::<char>::empty()) == Seq::<Seq<char>>::empty());
    } else if ws.len() == 1 {
        assert(ws[0].len() > 0);
        assert(Seq::<char>::empty() + ws[0] =~= ws[0]);
        assert(words(Seq::<char>::empty()) == Seq::<Seq<char>>::empty());
        lemma_words_append_word(Seq::<char>::empty(), ws[0]);
        assert(ws =~= seq![ws[0]]);
    } else {
        let init = ws.drop_last();
        assert(clean_words(init)) by {
            assert forall|i: int| 0 <= i < init.len() implies #[trigger] init[i].len() > 0 && forall|
                j: int,
            | 0 <= j < init[i].len() ==> !is_whitespace(#[trigger] init[i][j]) by {
                assert(init[i] == ws[i]);
            }
        }
        law_join_then_split(init);
        let x = join_words(init) + seq![' '];
        assert(is_whitespace(' '));
        assert(x.drop_last() =~= join_words(init));
        assert(words(x) == words(join_words(init)));
        let last = ws.last();
        assert(last == ws[ws.len() - 1]);
        assert(last.len() > 0);
        lemma_words_append_word(x, last);
        assert(ws =~= init.push(last));
    }
}

/// The text of a `/msg` command is the line's words after the address, and
/// cutting it into words again gives exactly those words.
pub proof fn law_msg_text_words(line: Seq<char>)
    ensures
        command_of(words(line)) matches CommandView::Msg { target, text } ==> target == words(
            line,
        )[1] && words(text) == words(line).subrange(2, words(line).len() as int),
{
    let ws = words(line);
    if command_of(ws) matches CommandView::Msg { target, text } {
        law_words_are_clean(line);
        let tail = ws.subrange(2, ws.len() as int);
        assert(clean_words(tail)) by {
            assert forall|i: int| 0 <= i < tail.len() implies #[trigger] tail[i].len() > 0 && forall|
                j: int,
            | 0 <= j < tail[i].len() ==> !is_whitespace(#[trigger] tail[i][j]) by {
                assert(tail[i] == ws[i + 2]);
            }
        }
        law_join_then_split(tail);
    }
}

/// A command typed at the prompt.
pub enum Command {
    /// A line with no words: prompt again.
    Empty,
    /// `/help`: list the commands.
    Help,
    /// `/id`: show the node's identity key.
    Id,
    /// `/onion`: show the node's onion address.
    Onion,
    /// `/connect <addr>`: open a handshake with `target`.
    Connect { target: String },
    /// `/connect` without an address.
    ConnectUsage,
    /// `/msg <addr> <text>`: send `text`, its words joined by single spaces.
    Msg { target: String, text: String },
    /// `/msg` without an address or without text.
    MsgUsage,
    /// `/quit`: leave the prompt.
    Quit,
    /// Any other first word.
    Unknown,
}

/// The mathematical value of a command.
pub enum CommandView {
    Empty,
    Help,
    Id,
    Onion,
    Connect { target: Seq<char> },
    ConnectUsage,
    Msg { target: Seq<char>, text: Seq<char> },
    MsgUsage,
    Quit,
    Unknown,
}

impl View for Command {
    type V = CommandView;

    open spec fn view(&self) -> CommandView {
        match self {
            Command::Empty => CommandView::Empty,
            Command::Help => CommandView::Help,
            Command::Id => CommandView::Id,
            Command::Onion => CommandView::Onion,
            Command::Connect { target } => CommandView::Connect { target: target@ },
            Command::ConnectUsage => CommandView::ConnectUsage,
            Command::Msg { target, text } => CommandView::Msg { target: target@, text: text@ },
            Command::MsgUsage => CommandView::MsgUsage,
            Command::Quit => CommandView::Quit,
            Command::Unknown => CommandView::Unknown,
        }
    }
}

/// The command that the words `ws` of a line name.
pub open spec fn command_of(ws: Seq<Seq<char>>) -> CommandView {
    if ws.len() == 0 {
        CommandView::Empty
    } else if ws[0] == "/help"@ {
        CommandView::Help
    } else if ws[0] == "/id"@ {
        CommandView::Id
    } else if ws[0] == "/onion"@ {
        CommandView::Onion
    } else if ws[0] == "/connect"@ {
        if ws.len() > 1 {
            CommandView::Connect { target: ws[1] }
        } else {
            CommandView::ConnectUsage
        }
    } else if ws[0] == "/msg"@ {
        if ws.len() > 2 {
            CommandView::Msg { target: ws[1], text: join_words(ws.subrange(2, ws.len() as int)) }
        } else {
            CommandView::MsgUsage
        }
    } else if ws[0] == "/quit"@ {
        CommandView::Quit
    } else {
        CommandView::Unknown
    }
}

/// The views of a list of strings.
pub open spec fn string_views(v: Seq<String>) -> Seq<Seq<char>> {
    v.map_values(|w: String| w@)
}

/// Whether `c` is white space.
pub fn char_is_whitespace(c: char) -> (b: bool)
    ensures
        b == is_whitespace(c),
{
    let v: u32 = c as u32;
    (0x9 <= v && v <= 0xd) || v == 0x20 || v == 0x85 || v == 0xa0 || v == 0x1680 || (0x2000 <= v
        && v <= 0x200a) || v == 0x2028 || v == 0x2029 || v == 0x202f || v == 0x205f || v == 0x3000
}

/// What each line asks for, by its words `w`: no words is an empty line;
/// `/help`, `/id`, `/onion` and `/quit` are decided by the first word
/// alone, whatever follows; `/connect` with an address connects to the
/// first address and is a usage error only when it stands alone; `/msg`
/// with an address and at least one word of text sends those words joined
/// by single spaces, and is a usage error only with fewer than three words;
/// any other first word is unknown.
pub proof fn law_command_by_words(line: Seq<char>)
    ensures
        words(line).len() == 0 ==> command_of(words(line)) is Empty,
        words(line).len() >= 1 && words(line)[0] == "/help"@ ==> command_of(words(line)) is Help,
        words(line).len() >= 1 && words(line)[0] == "/id"@ ==> command_of(words(line)) is Id,
        words(line).len() >= 1 && words(line)[0] == "/onion"@ ==> command_of(words(line)) is Onion,
        words(line).len() >= 1 && words(line)[0] == "/quit"@ ==> command_of(words(line)) is Quit,
        words(line).len() >= 2 && words(line)[0] == "/connect"@ ==> (command_of(words(line)) matches CommandView::Connect { target }
            && target == words(line)[1]),
        words(line).len() == 1 && words(line)[0] == "/connect"@ ==> command_of(words(line)) is ConnectUsage,
        words(line).len() >= 3 && words(line)[0] == "/msg"@ ==> (command_of(words(line)) matches CommandView::Msg { target, text }
            && target == words(line)[1] && text == join_words(words(line).subrange(2, words(line).len() as int))),
        1 <= words(line).len() < 3 && words(line)[0] == "/msg"@ ==> command_of(words(line)) is MsgUsage,
        command_of(words(line)) is ConnectUsage ==> words(line) == seq!["/connect"@],
        command_of(words(line)) is MsgUsage ==> 1 <= words(line).len() < 3 && words(line)[0] == "/msg"@,
        words(line).len() >= 1 && words(line)[0] != "/help"@ && words(line)[0] != "/id"@ && words(line)[0] != "/onion"@ && words(line)[0]
            != "/quit"@ && words(line)[0] != "/connect"@ && words(line)[0] != "/msg"@ ==> command_of(words(line)) is Unknown,
{
    reveal_strlit("/help");
    reveal_strlit("/id");
    reveal_strlit("/onion");
    reveal_strlit("/quit");
    reveal_strlit("/connect");
    reveal_strlit("/msg");
    assert("/help"@.len() == 5 && "/quit"@.len() == 5 && "/id"@.len() == 3);
    assert("/onion"@.len() == 6 && "/connect"@.len() == 8 && "/msg"@.len() == 4);
    assert("/help"@[1] == 'h' && "/quit"@[1] == 'q');
    let w = words(line);
    if command_of(w) is ConnectUsage {
        assert(w =~= seq!["/connect"@]);
    }
}

/// The words of `line`.
pub fn split_words(line: &str) -> (out: Vec<String>)
    ensures
        string_views(out@) == words(line@),
{
    let n: usize = line.unicode_len();
    let mut out: Vec<String> = Vec::new();
    let mut cur = String::new();
    let mut in_word = false;
    let mut i: usize = 0;
    while i < n
        invariant
            i <= n,
            n == line@.len(),
            in_word == (i > 0 && !is_whitespace(line@[i - 1])),
            in_word ==> words(line@.subrange(0, i as int)) == string_views(out@).push(cur@),
            !in_word ==> words(line@.subrange(0, i as int)) == string_views(out@),
        decreases n - i,
    {
        let ghost before = line@.subrange(0, i as int);
        let ghost after = line@.subrange(0, i + 1);
        assert(after.drop_last() =~= before);
        let c: char = line.get_char(i);
        if char_is_whitespace(c) {
            if in_word {
                let finished = cur;
                out.push(finished);
                cur = String::new();
                assert(string_views(out@) =~= words(before));
            }
            in_word = false;
        } else {
            let piece = line.substring_char(i, i + 1);
            if in_word {
                let ghost old_out = string_views(out@);
                let ghost old_cur = cur@;
                cur.append(piece);
                assert(cur@ =~= old_cur.push(c));
                assert(words(after) =~= old_out.push(old_cur).update(
                    old_out.len() as int,
                    old_cur.push(c),
                ));
                assert(words(after) =~= old_out.push(cur@));
            } else {
                cur = String::from_str(piece);
                assert(cur@ =~= seq![c]);
            }
            in_word = true;
        }
        i = i + 1;
    }
    if in_word {
        out.push(cur);
    }
    assert(line@.subrange(0, n as int) =~= line@);
    assert(string_views(out@) =~= words(line@));
    out
}

/// The words of `ws` from `start` on, joined with single spaces.
pub fn join_from(ws: &Vec<String>, start: usize) -> (text: String)
    requires
        start < ws@.len(),
    ensures
        text@ == join_words(string_views(ws@).subrange(start as int, ws@.len() as int)),
{
    let ghost views = string_views(ws@);
    let mut text = ws[start].clone();
    assert(ws@.len() == ws.len());
    let mut i: usize = start + 1;
    assert(views.subrange(start as int, i as int) =~= seq![views[start as int]]);
    while i < ws.len()
        invariant
            start < i <= ws@.len(),
            views == string_views(ws@),
            text@ == join_words(views.subrange(start as int, i as int)),
        decreases ws@.len() - i,
    {
        let space = " ";
        proof {
            reveal_strlit(" ");
        }
        text.append(space);
        text.append(ws[i].as_str());
        let ghost grown = views.subrange(start as int, i + 1);
        assert(grown.drop_last() =~= views.subrange(start as int, i as int));
        i = i + 1;
        assert(text@ =~= join_words(grown));
    }
    text
}

/// The command that `line` names.
pub fn parse_command(line: &str) -> (cmd: Command)
    ensures
        cmd@ == command_of(words(line@)),
        words(line@).len() == 0 ==> cmd@ is Empty,
        words(line@).len() >= 1 && words(line@)[0] == "/help"@ ==> cmd@ is Help,
        words(line@).len() >= 1 && words(line@)[0] == "/id"@ ==> cmd@ is Id,
        words(line@).len() >= 1 && words(line@)[0] == "/onion"@ ==> cmd@ is Onion,
        words(line@).len() >= 1 && words(line@)[0] == "/quit"@ ==> cmd@ is Quit,
        words(line@).len() >= 2 && words(line@)[0] == "/connect"@ ==> (cmd@ matches CommandView::Connect { target }
            && target == words(line@)[1]),
        words(line@).len() == 1 && words(line@)[0] == "/connect"@ ==> cmd@ is ConnectUsage,
        words(line@).len() >= 3 && words(line@)[0] == "/msg"@ ==> (cmd@ matches CommandView::Msg { target, text }
            && target == words(line@)[1] && text == join_words(words(line@).subrange(2, words(line@).len() as int))),
        1 <= words(line@).len() < 3 && words(line@)[0] == "/msg"@ ==> cmd@ is MsgUsage,
        cmd@ is ConnectUsage ==> words(line@) == seq!["/connect"@],
        cmd@ is MsgUsage ==> 1 <= words(line@).len() < 3 && words(line@)[0] == "/msg"@,
        words(line@).len() >= 1 && words(line@)[0] != "/help"@ && words(line@)[0] != "/id"@ && words(line@)[0] != "/onion"@ && words(line@)[0]
            != "/quit"@ && words(line@)[0] != "/connect"@ && words(line@)[0] != "/msg"@ ==> cmd@ is Unknown,
{
    proof {
        law_command_by_words(line@);
    }
    let ws = split_words(line);
    let ghost views = string_views(ws@);
    if ws.len() == 0 {
        return Command::Empty;
    }
    let first = &ws[0];
    assert(first@ == views[0]);
    if *first == String::from_str("/help") {
        Command::Help
    } else if *first == String::from_str("/id") {
        Command::Id
    } else if *first == String::from_str("/onion") {
        Command::Onion
    } else if *first == String::from_str("/connect") {
        if ws.len() > 1 {
            Command::Connect { target: ws[1].clone() }
        } else {
            Command::ConnectUsage
        }
    } else if *first == String::from_str("/msg") {
        if ws.len() > 2 {
            let text = join_from(&ws, 2);
            Command::Msg { target: ws[1].clone(), text }
        } else {
            Command::MsgUsage
        }
    } else if *first == String::from_str("/quit") {
        Command::Quit
    } else {
        Command::Unknown
    }
}

} // verus!
