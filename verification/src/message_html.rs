//! Messages as plain text in HTML.

use crate::text::{begins_with, chars_of};
use vstd::prelude::*;
use vstd::string::*;

verus! {

/// A character as text in HTML.
pub open spec fn html_char(c: char) -> Seq<char> {
    if c == '&' {
        "&amp;"@
    } else if c == '<' {
        "&lt;"@
    } else if c == '>' {
        "&gt;"@
    } else if c == '"' {
        "&quot;"@
    } else if c == '\'' {
        "&#39;"@
    } else {
        seq![c]
    }
}

/// The text of paragraphs, one for each line. A line ends with a line feed, a
/// carriage return, or both in this order.
pub open spec fn html_lines(message: Seq<char>) -> Seq<char>
    decreases message.len(),
{
    if message.len() == 0 {
        Seq::empty()
    } else if message.len() > 1 && message[0] == '\r' && message[1] == '\n' {
        "</p><p>"@ + html_lines(message.subrange(2, message.len() as int))
    } else if message[0] == '\r' || message[0] == '\n' {
        "</p><p>"@ + html_lines(message.drop_first())
    } else {
        html_char(message[0]) + html_lines(message.drop_first())
    }
}

/// A message as paragraphs of plain text.
pub open spec fn message_html(message: Seq<char>) -> Seq<char> {
    "<p>"@ + html_lines(message) + "</p>"@
}

/// A message as paragraphs of plain text: whatever it holds is shown, and
/// nothing of it is markup.
pub fn selectable_message_html(message: &str) -> (r: String)
    ensures
        r@ == message_html(message@),
{
    let chars = chars_of(message);
    let mut html = String::new();
    html.push_str("<p>");
    let mut i: usize = 0;
    assert(chars@.subrange(0, chars@.len() as int) =~= chars@);
    assert(html@ + html_lines(chars@) =~= "<p>"@ + html_lines(chars@));
    while i < chars.len()
        invariant
            i <= chars@.len(),
            html@ + html_lines(chars@.subrange(i as int, chars@.len() as int)) == "<p>"@
                + html_lines(chars@),
        decreases chars@.len() - i,
    {
        let ghost rest = chars@.subrange(i as int, chars@.len() as int);
        let ghost before = html@;
        assert(rest.drop_first() =~= chars@.subrange(i + 1, chars@.len() as int));
        let c = chars[i];
        if c == '\r' && i + 1 < chars.len() && chars[i + 1] == '\n' {
            assert(rest.subrange(2, rest.len() as int) =~= chars@.subrange(
                i + 2,
                chars@.len() as int,
            ));
            html.push_str("</p><p>");
            i = i + 2;
            assert(html@ + html_lines(chars@.subrange(i as int, chars@.len() as int)) =~= before
                + html_lines(rest));
        } else {
            match c {
                '&' => html.push_str("&amp;"),
                '<' => html.push_str("&lt;"),
                '>' => html.push_str("&gt;"),
                '"' => html.push_str("&quot;"),
                '\'' => html.push_str("&#39;"),
                '\r' => html.push_str("</p><p>"),
                '\n' => html.push_str("</p><p>"),
                _ => html.push(c),
            }
            i = i + 1;
            assert(html@ + html_lines(chars@.subrange(i as int, chars@.len() as int)) =~= before
                + html_lines(rest));
        }
    }
    html.push_str("</p>");
    assert(chars@.subrange(chars@.len() as int, chars@.len() as int) =~= Seq::<char>::empty());
    assert(html@ =~= message_html(message@));
    html
}

/// The characters that HTML gives a meaning to.
pub open spec fn is_markup(c: char) -> bool {
    c == '<' || c == '>' || c == '"' || c == '\''
}

/// Whether a message is one line.
pub open spec fn is_line(message: Seq<char>) -> bool {
    forall|i: int| 0 <= i < message.len() ==> #[trigger] message[i] != '\r' && message[i] != '\n'
}

/// No line of a message brings any markup into the page.
pub proof fn a_line_brings_no_markup(line: Seq<char>)
    requires
        is_line(line),
    ensures
        forall|i: int|
            0 <= i < html_lines(line).len() ==> !is_markup(#[trigger] html_lines(line)[i]),
    decreases line.len(),
{
    reveal_strlit("&amp;");
    reveal_strlit("&lt;");
    reveal_strlit("&gt;");
    reveal_strlit("&quot;");
    reveal_strlit("&#39;");
    if line.len() > 0 {
        let rest = line.drop_first();
        assert forall|i: int| 0 <= i < rest.len() implies #[trigger] rest[i] != '\r' && rest[i]
            != '\n' by {
            assert(rest[i] == line[i + 1]);
        }
        a_line_brings_no_markup(rest);
        assert(line[0] != '\r' && line[0] != '\n');
        let head = html_char(line[0]);
        let all = html_lines(line);
        assert forall|i: int| 0 <= i < all.len() implies !is_markup(#[trigger] all[i]) by {
            if i < head.len() {
                assert(all[i] == head[i]);
            } else {
                assert(all[i] == html_lines(rest)[i - head.len()]);
            }
        }
    }
}

/// Behind a line comes the next paragraph, whichever way the line ends.
pub proof fn every_line_is_a_paragraph(line: Seq<char>, rest: Seq<char>)
    requires
        is_line(line),
    ensures
        html_lines(line + seq!['\n'] + rest) == html_lines(line) + "</p><p>"@ + html_lines(rest),
        html_lines(line + seq!['\r', '\n'] + rest) == html_lines(line) + "</p><p>"@ + html_lines(
            rest,
        ),
        !(rest.len() > 0 && rest[0] == '\n') ==> html_lines(line + seq!['\r'] + rest) == html_lines(
            line,
        ) + "</p><p>"@ + html_lines(rest),
    decreases line.len(),
{
    let unix = line + seq!['\n'] + rest;
    let dos = line + seq!['\r', '\n'] + rest;
    let mac = line + seq!['\r'] + rest;
    if line.len() == 0 {
        assert(unix.drop_first() =~= rest);
        assert(dos.subrange(2, dos.len() as int) =~= rest);
        assert(mac.drop_first() =~= rest);
        assert(html_lines(unix) =~= html_lines(line) + "</p><p>"@ + html_lines(rest));
        assert(html_lines(dos) =~= html_lines(line) + "</p><p>"@ + html_lines(rest));
        if !(rest.len() > 0 && rest[0] == '\n') {
            assert(html_lines(mac) =~= html_lines(line) + "</p><p>"@ + html_lines(rest));
        }
    } else {
        let tail = line.drop_first();
        assert forall|i: int| 0 <= i < tail.len() implies #[trigger] tail[i] != '\r' && tail[i]
            != '\n' by {
            assert(tail[i] == line[i + 1]);
        }
        every_line_is_a_paragraph(tail, rest);
        assert(line[0] != '\r' && line[0] != '\n');
        assert(unix.drop_first() =~= tail + seq!['\n'] + rest);
        assert(dos.drop_first() =~= tail + seq!['\r', '\n'] + rest);
        assert(mac.drop_first() =~= tail + seq!['\r'] + rest);
        assert(html_lines(unix) =~= html_lines(line) + "</p><p>"@ + html_lines(rest));
        assert(html_lines(dos) =~= html_lines(line) + "</p><p>"@ + html_lines(rest));
        if !(rest.len() > 0 && rest[0] == '\n') {
            assert(html_lines(mac) =~= html_lines(line) + "</p><p>"@ + html_lines(rest));
        }
    }
}

/// The text that a reader sees of HTML without tags: its character references read as
/// the characters that they name.
pub open spec fn seen(html: Seq<char>) -> Seq<char>
    decreases html.len(),
{
    if html.len() == 0 {
        Seq::empty()
    } else if html.len() >= 5 && begins_with(html, "&amp;"@) {
        seq!['&'] + seen(html.subrange(5, html.len() as int))
    } else if html.len() >= 4 && begins_with(html, "&lt;"@) {
        seq!['<'] + seen(html.subrange(4, html.len() as int))
    } else if html.len() >= 4 && begins_with(html, "&gt;"@) {
        seq!['>'] + seen(html.subrange(4, html.len() as int))
    } else if html.len() >= 6 && begins_with(html, "&quot;"@) {
        seq!['"'] + seen(html.subrange(6, html.len() as int))
    } else if html.len() >= 5 && begins_with(html, "&#39;"@) {
        seq!['\''] + seen(html.subrange(5, html.len() as int))
    } else {
        seq![html[0]] + seen(html.drop_first())
    }
}

proof fn lemma_begins(c: char, name: Seq<char>, rest: Seq<char>)
    requires
        name.len() > 0,
        c != '&',
        name[0] == '&',
    ensures
        !begins_with(seq![c] + rest, name),
{
    if begins_with(seq![c] + rest, name) {
        assert((seq![c] + rest).subrange(0, name.len() as int)[0] == name[0]);
    }
}

/// A reader sees every line of a message as it was written, character by character.
pub proof fn a_line_is_seen_as_it_was_written(line: Seq<char>)
    requires
        is_line(line),
    ensures
        seen(html_lines(line)) == line,
    decreases line.len(),
{
    if line.len() > 0 {
        let c = line[0];
        let rest = line.drop_first();
        assert forall|i: int| 0 <= i < rest.len() implies #[trigger] rest[i] != '\r' && rest[i]
            != '\n' by {
            assert(rest[i] == line[i + 1]);
        }
        a_line_is_seen_as_it_was_written(rest);
        assert(line[0] != '\r' && line[0] != '\n');
        reveal_strlit("&amp;");
        reveal_strlit("&lt;");
        reveal_strlit("&gt;");
        reveal_strlit("&quot;");
        reveal_strlit("&#39;");
        let html = html_lines(line);
        let tail = html_lines(rest);
        let head = html_char(c);
        let n = head.len() as int;
        assert(html == head + tail);
        assert(html.subrange(0, n) =~= head);
        assert(html.subrange(n, html.len() as int) =~= tail);
        assert(seq![c] + rest =~= line);
        if c == '&' {
        } else if c == '<' || c == '>' || c == '"' || c == '\'' {
            assert(html[1] == head[1]);
            lemma_other_name(html, "&amp;"@, "&amp;"@[1]);
            if c != '<' {
                lemma_other_name(html, "&lt;"@, "&lt;"@[1]);
            }
            if c != '<' && c != '>' {
                lemma_other_name(html, "&gt;"@, "&gt;"@[1]);
            }
            if c == '\'' {
                lemma_other_name(html, "&quot;"@, "&quot;"@[1]);
            }
        } else {
            lemma_begins(c, "&amp;"@, tail);
            lemma_begins(c, "&lt;"@, tail);
            lemma_begins(c, "&gt;"@, tail);
            lemma_begins(c, "&quot;"@, tail);
            lemma_begins(c, "&#39;"@, tail);
            assert(html == seq![c] + tail);
            assert(html.drop_first() =~= tail);
        }
    }
}

proof fn lemma_other_name(html: Seq<char>, name: Seq<char>, second: char)
    requires
        name.len() > 1,
        name[1] == second,
        html.len() > 1,
        html[1] != second,
    ensures
        !begins_with(html, name),
{
    if begins_with(html, name) {
        assert(html.subrange(0, name.len() as int)[1] == name[1]);
    }
}

/// A message is a paragraph, however many it becomes.
pub proof fn a_message_is_made_of_paragraphs(message: Seq<char>)
    ensures
        message_html(message).len() == 7 + html_lines(message).len(),
        message_html(message).subrange(0, 3) == "<p>"@,
        message_html(message).subrange(3, (3 + html_lines(message).len()) as int) == html_lines(message),
        message_html(message).subrange(
            (3 + html_lines(message).len()) as int,
            message_html(message).len() as int,
        ) == "</p>"@,
{
    reveal_strlit("<p>");
    reveal_strlit("</p>");
    let html = message_html(message);
    let n = html_lines(message).len() as int;
    assert(html.subrange(0, 3) =~= "<p>"@);
    assert(html.subrange(3, 3 + n) =~= html_lines(message));
    assert(html.subrange(3 + n, html.len() as int) =~= "</p>"@);
}

} // verus!
