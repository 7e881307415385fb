//! The script that selects a cited passage in the page of a reader or editor.

use crate::sources::{AiCitationTextFocus, FocusView};
use crate::text::begins_with;
use vstd::prelude::*;
use vstd::string::*;

verus! {

/// What stands before the request in the script.
pub const SCRIPT_HEAD: &'static str = r#"(() => {
  "use strict";
  const payload = "#;

/// What stands behind the request in the script. The script never falls back to
/// the start of the page: a passage that is missing or stands there twice is
/// reported and not selected.
pub const SCRIPT_TAIL: &'static str = r#";
  const finish = (found, reason) => {
    try {
      window.ipc?.postMessage(JSON.stringify({ ...payload.result, found, reason }));
    } catch {}
  };
  const run = () => {
    const root = document.querySelector('.ProseMirror') || document.body;
    if (!root) { finish(false, 'missing_root'); return; }
    const chars = [];
    const positions = [];
    let pendingSpace = null;
    let hasPendingSpace = false;
    const emitSpace = (position) => {
      if (chars.length > 0 && !hasPendingSpace) {
        pendingSpace = position;
        hasPendingSpace = true;
      }
    };
    const emitText = (node) => {
      const value = node.data || '';
      for (let index = 0; index < value.length; index += 1) {
        const character = value[index];
        if (/\s/u.test(character)) {
          emitSpace([node, index, index + 1]);
          continue;
        }
        if (hasPendingSpace) {
          chars.push(' ');
          positions.push(pendingSpace);
          pendingSpace = null;
          hasPendingSpace = false;
        }
        chars.push(character);
        positions.push([node, index, index + 1]);
      }
    };
    const blockTags = new Set(['ADDRESS','ARTICLE','ASIDE','BLOCKQUOTE','DIV','DL','FIELDSET','FIGCAPTION','FIGURE','FOOTER','FORM','H1','H2','H3','H4','H5','H6','HEADER','HR','LI','MAIN','NAV','OL','P','PRE','SECTION','TABLE','TD','TH','TR','UL']);
    const excludedTags = new Set(['HEAD','SCRIPT','STYLE','NOSCRIPT','TEMPLATE']);
    const walk = (node) => {
      if (node.nodeType === Node.TEXT_NODE) { emitText(node); return; }
      if (node.nodeType !== Node.ELEMENT_NODE) return;
      if (excludedTags.has(node.tagName)) return;
      if (node.tagName === 'BR') { emitSpace(null); return; }
      const block = blockTags.has(node.tagName);
      if (block) emitSpace(null);
      for (const child of node.childNodes) walk(child);
      if (block) emitSpace(null);
    };
    walk(root);
    const normalize = (value) => String(value || '').replace(/\s+/gu, ' ').trim();
    const text = normalize(payload.focus.text);
    if (!text) { finish(false, 'empty_text'); return; }
    const context = normalize(`${payload.focus.before}${payload.focus.text}${payload.focus.after}`);
    const haystack = chars.join('');
    let matchStart = haystack.indexOf(context);
    if (matchStart < 0 || haystack.indexOf(context, matchStart + 1) >= 0) {
      finish(false, matchStart < 0 ? 'not_found' : 'ambiguous');
      return;
    }
    const throughFocus = normalize(`${payload.focus.before}${payload.focus.text}`);
    const focusStart = matchStart + Math.max(0, throughFocus.length - text.length);
    const focusEnd = focusStart + text.length;
    const concrete = positions.slice(focusStart, focusEnd).filter(Boolean);
    if (concrete.length === 0) { finish(false, 'not_found'); return; }
    const first = concrete[0];
    const last = concrete[concrete.length - 1];
    try {
      const range = document.createRange();
      range.setStart(first[0], first[1]);
      range.setEnd(last[0], last[2]);
      const selection = window.getSelection();
      selection.removeAllRanges();
      selection.addRange(range);
      (first[0].parentElement || root).scrollIntoView({ block: 'center', inline: 'nearest' });
      finish(true, '');
    } catch {
      finish(false, 'invalid_range');
    }
  };
  if (document.readyState === 'loading') {
    document.addEventListener('DOMContentLoaded', run, { once: true });
  } else {
    run();
  }
})();"#;

/// The digits of hexadecimal numerals.
pub open spec fn hex_digit(d: nat) -> char {
    seq!['0', '1', '2', '3', '4', '5', '6', '7', '8', '9', 'a', 'b', 'c', 'd', 'e', 'f'][d as int]
}

/// One character inside a JSON string.
pub open spec fn json_escape(c: char) -> Seq<char> {
    let v = c as u32;
    if c == '"' {
        seq!['\\', '"']
    } else if c == '\\' {
        seq!['\\', '\\']
    } else if v == 0x08 {
        seq!['\\', 'b']
    } else if v == 0x09 {
        seq!['\\', 't']
    } else if v == 0x0a {
        seq!['\\', 'n']
    } else if v == 0x0c {
        seq!['\\', 'f']
    } else if v == 0x0d {
        seq!['\\', 'r']
    } else if v < 0x20 {
        seq!['\\', 'u', '0', '0', hex_digit((v / 16) as nat), hex_digit((v % 16) as nat)]
    } else {
        seq![c]
    }
}

/// The characters of a text inside a JSON string.
pub open spec fn json_escaped(s: Seq<char>) -> Seq<char>
    decreases s.len(),
{
    if s.len() == 0 {
        Seq::empty()
    } else {
        json_escaped(s.drop_last()) + json_escape(s.last())
    }
}

/// A text as a JSON string.
pub open spec fn json_string(s: Seq<char>) -> Seq<char> {
    seq!['"'] + json_escaped(s) + seq!['"']
}

/// `serde_json::Value::to_string` on a string value: the text in quotation
/// marks, with quotation marks, backslashes and control characters escaped.
#[verifier::external_body]
fn json_text(text: &str) -> (r: String)
    ensures
        r@ == json_string(text@),
{
    serde_json::Value::from(text).to_string()
}

/// The request that the script works on, in JSON. The envelope is a JSON text
/// that names the page the script runs in.
pub open spec fn script_payload(focus: FocusView, result_envelope: Seq<char>) -> Seq<char> {
    "{\"focus\":{\"text\":"@ + json_string(focus.text) + ",\"before\":"@ + json_string(focus.before)
        + ",\"after\":"@ + json_string(focus.after) + "},\"result\":"@ + result_envelope + "}"@
}

/// The script that selects a passage of a page and reports whether it did.
pub fn citation_dom_navigation_script(focus: &AiCitationTextFocus, result_envelope: &str) -> (r:
    String)
    ensures
        r@ == SCRIPT_HEAD@ + script_payload(focus@, result_envelope@) + SCRIPT_TAIL@,
{
    let mut payload = "{\"focus\":{\"text\":".to_owned();
    payload.push_str(json_text(focus.text.as_str()).as_str());
    payload.push_str(",\"before\":");
    payload.push_str(json_text(focus.before.as_str()).as_str());
    payload.push_str(",\"after\":");
    payload.push_str(json_text(focus.after.as_str()).as_str());
    payload.push_str("},\"result\":");
    payload.push_str(result_envelope);
    payload.push_str("}");
    let mut script = SCRIPT_HEAD.to_owned();
    script.push_str(payload.as_str());
    script.push_str(SCRIPT_TAIL);
    script
}

/// No control character of a text reaches the script, so no line of the page
/// can end inside a JSON string.
pub proof fn json_strings_hold_no_control_characters(s: Seq<char>)
    ensures
        forall|i: int| 0 <= i < json_string(s).len() ==> (#[trigger] json_string(s)[i]) as u32
            >= 0x20,
{
    lemma_escaped_visible(s);
}

proof fn lemma_escaped_visible(s: Seq<char>)
    ensures
        forall|i: int| 0 <= i < json_escaped(s).len() ==> (#[trigger] json_escaped(s)[i]) as u32
            >= 0x20,
    decreases s.len(),
{
    if s.len() > 0 {
        lemma_escaped_visible(s.drop_last());
        let tail = json_escape(s.last());
        assert forall|i: int| 0 <= i < tail.len() implies (#[trigger] tail[i]) as u32 >= 0x20 by {
            let v = s.last() as u32;
            if v < 0x20 {
                assert(v / 16 < 16 && v % 16 < 16);
            }
        }
        let head = json_escaped(s.drop_last());
        assert forall|i: int| 0 <= i < json_escaped(s).len() implies (
        #[trigger] json_escaped(s)[i]) as u32 >= 0x20 by {
            if i < head.len() {
                assert(json_escaped(s)[i] == head[i]);
            } else {
                assert(json_escaped(s)[i] == tail[i - head.len()]);
            }
        }
    }
}

/// What the script is handed begins with the words of the citation, then what stands
/// right before them and right behind them, and ends with what the page answers with.
pub proof fn the_script_is_handed_the_words_of_the_citation(
    focus: FocusView,
    result_envelope: Seq<char>,
    whole: Seq<char>,
)
    requires
        whole == script_payload(focus, result_envelope),
    ensures
        ({
            let words = "{\"focus\":{\"text\":"@ + json_string(focus.text);
            let before = words + ",\"before\":"@ + json_string(focus.before);
            let after = before + ",\"after\":"@ + json_string(focus.after);
            &&& begins_with(whole, words)
            &&& begins_with(whole, before)
            &&& begins_with(whole, after)
            &&& whole.subrange(after.len() as int, whole.len() as int) == "},\"result\":"@
                + result_envelope + "}"@
        }),
{
    let words = "{\"focus\":{\"text\":"@ + json_string(focus.text);
    let before = words + ",\"before\":"@ + json_string(focus.before);
    let after = before + ",\"after\":"@ + json_string(focus.after);
    let rest = "},\"result\":"@ + result_envelope + "}"@;
    assert(whole =~= after + rest);
    assert(whole.subrange(0, words.len() as int) =~= words);
    assert(whole.subrange(0, before.len() as int) =~= before);
    assert(whole.subrange(0, after.len() as int) =~= after);
    assert(whole.subrange(after.len() as int, whole.len() as int) =~= rest);
}

} // verus!
