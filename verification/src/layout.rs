//! The layout inspector: a captured view hierarchy, its search, the labels
//! and attributes shown for a node, and the text dump a node copies.

use vstd::prelude::*;

use crate::device::{same_target, target_view, BridgeError, DeviceTarget};
use crate::i18n::{text, translation, Language};
use crate::text::{
    chars_of, contains, contains_text, lowercase, push_char, push_chars, push_signed_zero_padded,
    signed_zero_pad, string_of, to_lowercase,
};

verus! {

/// Time between automatic captures while nothing was captured, in milliseconds.
pub const AUTO_CAPTURE_RETRY_MS: u64 = 8_000;

/// One view of the captured hierarchy.
#[derive(Debug)]
pub struct LayoutNode {
    pub id: usize,
    pub class: String,
    pub resource_id: String,
    pub text: String,
    pub content_description: String,
    pub package: String,
    /// Left, top, right, bottom in screen pixels.
    pub bounds: [i32; 4],
    pub clickable: bool,
    pub scrollable: bool,
    pub enabled: bool,
    pub selected: bool,
    pub focused: bool,
    pub children: Vec<LayoutNode>,
}

/// A captured hierarchy with the XML it was read from.
#[derive(Debug)]
pub struct LayoutSnapshot {
    pub root: LayoutNode,
    pub raw_xml: String,
}

/// A string as `{:?}` prints it: quoted, with quotes, backslashes and
/// non-printable characters escaped.
pub uninterp spec fn debug_quoted(s: Seq<char>) -> Seq<char>;

/// `{:?}` of a string (`<str as Debug>::fmt`). Claimed: the result is a
/// function of the text alone and starts and ends with a double quote.
#[verifier::external_body]
fn debug_text(s: &str) -> (quoted: String)
    ensures
        quoted@ == debug_quoted(s@),
        quoted@.len() >= 2,
        quoted@[0] == '"',
        quoted@.last() == '"',
{
    format!("{s:?}")
}

/// How many views a node spans, itself included.
pub open spec fn node_count(node: LayoutNode) -> nat
    decreases node,
{
    1 + children_count(node.children@, node.children@.len() as int)
}

/// How many views the first `n` children span.
pub open spec fn children_count(children: Seq<LayoutNode>, n: int) -> nat
    decreases children, n,
{
    if n <= 0 || n > children.len() {
        0
    } else {
        children_count(children, n - 1) + node_count(children[n - 1])
    }
}

impl LayoutNode {
    /// How many views the node spans.
    pub fn count(&self) -> (n: usize)
        requires
            node_count(*self) <= usize::MAX,
        ensures
            n == node_count(*self),
        decreases *self,
    {
        let mut total: usize = 1;
        let mut k: usize = 0;
        while k < self.children.len()
            invariant
                k <= self.children@.len(),
                node_count(*self) <= usize::MAX,
                node_count(*self) == 1 + children_count(self.children@, self.children@.len() as int),
                total == 1 + children_count(self.children@, k as int),
            decreases self.children@.len() - k,
        {
            proof {
                lemma_children_count_grows(self.children@, k + 1, self.children@.len() as int);
            }
            assert(children_count(self.children@, k + 1) == children_count(self.children@, k as int)
                + node_count(self.children@[k as int]));
            let sub = self.children[k].count();
            total = total + sub;
            k = k + 1;
        }
        total
    }
}

proof fn lemma_children_count_grows(children: Seq<LayoutNode>, a: int, b: int)
    requires
        0 <= a <= b <= children.len(),
    ensures
        children_count(children, a) <= children_count(children, b),
    decreases b - a,
{
    if a < b {
        lemma_children_count_grows(children, a, b - 1);
    }
}

/// The first node in depth-first order (the node before its children) with
/// the given id.
pub open spec fn found(node: LayoutNode, id: usize) -> Option<LayoutNode>
    decreases node,
{
    if node.id == id {
        Some(node)
    } else {
        found_in(node.children@, node.children@.len() as int, id)
    }
}

/// The first of the first `n` children's subtrees holding a node with the id.
pub open spec fn found_in(children: Seq<LayoutNode>, n: int, id: usize) -> Option<LayoutNode>
    decreases children, n,
{
    if n <= 0 || n > children.len() {
        None
    } else {
        match found_in(children, n - 1, id) {
            Some(hit) => Some(hit),
            None => found(children[n - 1], id),
        }
    }
}

/// Finds the node with the given id, depth first.
pub fn find_node(node: &LayoutNode, id: usize) -> (hit: Option<&LayoutNode>)
    ensures
        match hit {
            Some(h) => found(*node, id) == Some(*h),
            None => found(*node, id) is None,
        },
    decreases *node,
{
    if node.id == id {
        return Some(node);
    }
    let mut k: usize = 0;
    while k < node.children.len()
        invariant
            k <= node.children@.len(),
            node.id != id,
            found_in(node.children@, k as int, id) is None,
        decreases node.children@.len() - k,
    {
        match find_node(&node.children[k], id) {
            Some(hit) => {
                assert(found_in(node.children@, k + 1, id) == Some(*hit));
                proof {
                    lemma_found_in_settles(node.children@, k + 1, node.children@.len() as int, id);
                }
                return Some(hit);
            },
            None => {},
        }
        k = k + 1;
    }
    None
}

proof fn lemma_found_in_settles(children: Seq<LayoutNode>, a: int, b: int, id: usize)
    requires
        0 <= a <= b <= children.len(),
        found_in(children, a, id) is Some,
    ensures
        found_in(children, b, id) == found_in(children, a, id),
    decreases b - a,
{
    if a < b {
        lemma_found_in_settles(children, a, b - 1, id);
    }
}

/// Whether one of the searched fields of a node (class, resource id, text,
/// content description), lower-cased, contains the query.
pub open spec fn node_hit(node: LayoutNode, query: Seq<char>) -> bool {
    ||| contains_text(lowercase(node.class@), query)
    ||| contains_text(lowercase(node.resource_id@), query)
    ||| contains_text(lowercase(node.text@), query)
    ||| contains_text(lowercase(node.content_description@), query)
}

/// Whether a node or any node below it matches the query.
pub open spec fn subtree_hit(node: LayoutNode, query: Seq<char>) -> bool
    decreases node,
{
    node_hit(node, query) || children_hit(node.children@, node.children@.len() as int, query)
}

/// Whether one of the first `n` children's subtrees matches the query.
pub open spec fn children_hit(children: Seq<LayoutNode>, n: int, query: Seq<char>) -> bool
    decreases children, n,
{
    if n <= 0 || n > children.len() {
        false
    } else {
        children_hit(children, n - 1, query) || subtree_hit(children[n - 1], query)
    }
}

/// Case-insensitive match of a node against the (already lower-cased) query.
pub fn node_matches(node: &LayoutNode, query: &str) -> (hit: bool)
    ensures
        hit == node_hit(*node, query@),
        hit == (contains_text(lowercase(node.class@), query@) || contains_text(
            lowercase(node.resource_id@),
            query@,
        ) || contains_text(lowercase(node.text@), query@) || contains_text(
            lowercase(node.content_description@),
            query@,
        )),
{
    contains(to_lowercase(node.class.as_str()).as_str(), query) || contains(
        to_lowercase(node.resource_id.as_str()).as_str(),
        query,
    ) || contains(to_lowercase(node.text.as_str()).as_str(), query) || contains(
        to_lowercase(node.content_description.as_str()).as_str(),
        query,
    )
}

/// Whether the node or a node below it matches.
pub fn subtree_matches(node: &LayoutNode, query: &str) -> (hit: bool)
    ensures
        hit == subtree_hit(*node, query@),
        forall|path: Seq<int>|
            #[trigger] descendant(*node, path) matches Some(d) && (contains_text(
                lowercase(d.class@),
                query@,
            ) || contains_text(lowercase(d.resource_id@), query@) || contains_text(
                lowercase(d.text@),
                query@,
            ) || contains_text(lowercase(d.content_description@), query@)) ==> hit,
    decreases *node,
{
    proof {
        assert forall|path: Seq<int>|
            #[trigger] descendant(*node, path) matches Some(d) && (contains_text(
                lowercase(d.class@),
                query@,
            ) || contains_text(lowercase(d.resource_id@), query@) || contains_text(
                lowercase(d.text@),
                query@,
            ) || contains_text(lowercase(d.content_description@), query@)) implies subtree_hit(*node, query@) by {
            lemma_descendant_hit(*node, path, query@);
        }
    }
    if node_matches(node, query) {
        return true;
    }
    let mut k: usize = 0;
    while k < node.children.len()
        invariant
            k <= node.children@.len(),
            !children_hit(node.children@, k as int, query@),
        decreases node.children@.len() - k,
    {
        if subtree_matches(&node.children[k], query) {
            assert(children_hit(node.children@, k + 1, query@));
            proof {
                lemma_children_hit_settles(node.children@, k + 1, node.children@.len() as int, query@);
            }
            return true;
        }
        k = k + 1;
    }
    false
}

/// The node reached from `node` by following child positions `path`.
pub open spec fn descendant(node: LayoutNode, path: Seq<int>) -> Option<LayoutNode>
    decreases path.len(),
{
    if path.len() == 0 {
        Some(node)
    } else if 0 <= path[0] < node.children@.len() {
        descendant(node.children@[path[0]], path.drop_first())
    } else {
        None
    }
}

/// The search over a tree: a node matches when its lower-cased class,
/// resource id, text or content description contains the query, and a
/// tree matches when any node in it (itself, a child, a child's child, ...)
/// does. In particular an icon-only button is found by its description.
pub proof fn lemma_descendant_hit(node: LayoutNode, path: Seq<int>, query: Seq<char>)
    ensures
        node_hit(node, query) == (contains_text(lowercase(node.class@), query) || contains_text(
            lowercase(node.resource_id@),
            query,
        ) || contains_text(lowercase(node.text@), query) || contains_text(
            lowercase(node.content_description@),
            query,
        )),
        descendant(node, path) matches Some(d) && (contains_text(lowercase(d.class@), query)
            || contains_text(lowercase(d.resource_id@), query) || contains_text(lowercase(d.text@), query)
            || contains_text(lowercase(d.content_description@), query)) ==> subtree_hit(node, query),
    decreases path.len(),
{
    if path.len() > 0 && 0 <= path[0] < node.children@.len() {
        let i = path[0];
        let child = node.children@[i];
        lemma_descendant_hit(child, path.drop_first(), query);
        if subtree_hit(child, query) {
            assert(children_hit(node.children@, i + 1, query));
            lemma_children_hit_settles(node.children@, i + 1, node.children@.len() as int, query);
        }
    }
}

proof fn lemma_children_hit_settles(children: Seq<LayoutNode>, a: int, b: int, query: Seq<char>)
    requires
        0 <= a <= b <= children.len(),
        children_hit(children, a, query),
    ensures
        children_hit(children, b, query),
    decreases b - a,
{
    if a < b {
        lemma_children_hit_settles(children, a, b - 1, query);
    }
}

/// Index just after the last `sep` of `s` (0 when there is none).
pub open spec fn after_last(s: Seq<char>, sep: char) -> int
    decreases s.len(),
{
    if s.len() == 0 {
        0
    } else if s.last() == sep {
        s.len() as int
    } else {
        after_last(s.drop_last(), sep)
    }
}

/// The part of `s` after its last `sep` (all of it when there is none).
pub open spec fn tail_after(s: Seq<char>, sep: char) -> Seq<char> {
    s.subrange(after_last(s, sep), s.len() as int)
}

fn tail_after_exec(s: &str, sep: char) -> (tail: String)
    ensures
        tail@ == tail_after(s@, sep),
{
    let chars = chars_of(s);
    let mut start: usize = 0;
    let mut k: usize = 0;
    while k < chars.len()
        invariant
            k <= chars@.len(),
            start <= k,
            start == after_last(chars@.take(k as int), sep),
        decreases chars@.len() - k,
    {
        assert(chars@.take(k + 1).drop_last() =~= chars@.take(k as int));
        if chars[k] == sep {
            start = k + 1;
        }
        k = k + 1;
    }
    assert(chars@.take(chars@.len() as int) =~= chars@);
    let mut tail = String::new();
    let mut j: usize = start;
    while j < chars.len()
        invariant
            start <= j <= chars@.len(),
            chars@ == s@,
            start == after_last(s@, sep),
            tail@ == chars@.subrange(start as int, j as int),
        decreases chars@.len() - j,
    {
        push_char(&mut tail, chars[j]);
        j = j + 1;
        assert(tail@ =~= chars@.subrange(start as int, j as int));
    }
    tail
}

/// The tree label of a node: the short class name, then the quoted text or
/// else the bracketed content description, then the short resource id, then
/// a disabled marker, joined by ` · `.
pub open spec fn label_text(language: Language, node: LayoutNode) -> Seq<char> {
    let sep = seq![' ', '·', ' '];
    let base = tail_after(node.class@, '.');
    let with_text = if node.text@.len() > 0 {
        base + sep + debug_quoted(node.text@)
    } else if node.content_description@.len() > 0 {
        base + sep + seq!['['] + node.content_description@ + seq![']']
    } else {
        base
    };
    let with_id = if node.resource_id@.len() > 0 {
        with_text + sep + tail_after(node.resource_id@, '/')
    } else {
        with_text
    };
    if !node.enabled {
        with_id + sep + translation(language, "attr_disabled"@)
    } else {
        with_id
    }
}

fn push_separator(out: &mut String)
    ensures
        final(out)@ == old(out)@ + seq![' ', '·', ' '],
{
    push_char(out, ' ');
    push_char(out, '·');
    push_char(out, ' ');
}

/// `TextView · "Hello" · title`: how a node reads in the tree.
pub fn node_label(language: Language, node: &LayoutNode) -> (label: String)
    ensures
        label@ == label_text(language, *node),
{
    let mut label = tail_after_exec(node.class.as_str(), '.');
    if node.text.as_str().unicode_len() > 0 {
        push_separator(&mut label);
        push_chars(&mut label, chars_of(debug_text(node.text.as_str()).as_str()).as_slice());
    } else if node.content_description.as_str().unicode_len() > 0 {
        push_separator(&mut label);
        push_char(&mut label, '[');
        push_chars(&mut label, chars_of(node.content_description.as_str()).as_slice());
        push_char(&mut label, ']');
    }
    if node.resource_id.as_str().unicode_len() > 0 {
        push_separator(&mut label);
        push_chars(&mut label, chars_of(tail_after_exec(node.resource_id.as_str(), '/').as_str()).as_slice());
    }
    if !node.enabled {
        push_separator(&mut label);
        push_chars(&mut label, chars_of(text(language, "attr_disabled")).as_slice());
    }
    label
}

/// `(left, top, right, bottom)`.
pub open spec fn bounds_text(bounds: [i32; 4]) -> Seq<char> {
    seq!['('] + signed_zero_pad(bounds[0] as int, 0) + seq![',', ' '] + signed_zero_pad(bounds[1] as int, 0)
        + seq![',', ' '] + signed_zero_pad(bounds[2] as int, 0) + seq![',', ' '] + signed_zero_pad(
        bounds[3] as int,
        0,
    ) + seq![')']
}

fn push_bounds(out: &mut String, bounds: &[i32; 4])
    ensures
        final(out)@ == old(out)@ + bounds_text(*bounds),
{
    push_char(out, '(');
    push_signed_zero_padded(out, bounds[0] as i64, 0);
    push_char(out, ',');
    push_char(out, ' ');
    push_signed_zero_padded(out, bounds[1] as i64, 0);
    push_char(out, ',');
    push_char(out, ' ');
    push_signed_zero_padded(out, bounds[2] as i64, 0);
    push_char(out, ',');
    push_char(out, ' ');
    push_signed_zero_padded(out, bounds[3] as i64, 0);
    push_char(out, ')');
    assert(final(out)@ =~= old(out)@ + bounds_text(*bounds));
}

/// One line of the dump: indented two spaces per level, then the class, the
/// bounds, the quoted text and the resource id.
pub open spec fn dump_line(node: LayoutNode, depth: nat) -> Seq<char> {
    Seq::new(2 * depth, |i: int| ' ') + node.class@ + " bounds="@ + bounds_text(node.bounds) + " text="@
        + debug_quoted(node.text@) + " id="@ + node.resource_id@ + seq!['\n']
}

/// The dump of a subtree, depth first.
pub open spec fn dump_text(node: LayoutNode, depth: nat) -> Seq<char>
    decreases node,
{
    dump_line(node, depth) + children_dump(node.children@, node.children@.len() as int, depth + 1)
}

/// The dump of the first `n` children's subtrees.
pub open spec fn children_dump(children: Seq<LayoutNode>, n: int, depth: nat) -> Seq<char>
    decreases children, n,
{
    if n <= 0 || n > children.len() {
        Seq::empty()
    } else {
        children_dump(children, n - 1, depth) + dump_text(children[n - 1], depth)
    }
}

/// Appends the dump of a subtree at the given depth.
pub fn walk_node(node: &LayoutNode, depth: usize, out: &mut String)
    requires
        depth + node_count(*node) <= usize::MAX / 4,
    ensures
        final(out)@ == old(out)@ + dump_text(*node, depth as nat),
    decreases *node,
{
    let ghost start = out@;
    let mut i: usize = 0;
    while i < depth
        invariant
            i <= depth,
            out@ == start + Seq::new(2 * i as nat, |j: int| ' '),
        decreases depth - i,
    {
        push_char(out, ' ');
        push_char(out, ' ');
        i = i + 1;
        assert(out@ =~= start + Seq::new(2 * i as nat, |j: int| ' '));
    }
    push_chars(out, chars_of(node.class.as_str()).as_slice());
    push_chars(out, chars_of(" bounds=").as_slice());
    push_bounds(out, &node.bounds);
    push_chars(out, chars_of(" text=").as_slice());
    push_chars(out, chars_of(debug_text(node.text.as_str()).as_str()).as_slice());
    push_chars(out, chars_of(" id=").as_slice());
    push_chars(out, chars_of(node.resource_id.as_str()).as_slice());
    push_char(out, '\n');
    assert(out@ =~= start + dump_line(*node, depth as nat));
    let ghost head = out@;
    let mut k: usize = 0;
    while k < node.children.len()
        invariant
            k <= node.children@.len(),
            depth + node_count(*node) <= usize::MAX / 4,
            node_count(*node) == 1 + children_count(node.children@, node.children@.len() as int),
            out@ == head + children_dump(node.children@, k as int, (depth + 1) as nat),
        decreases node.children@.len() - k,
    {
        proof {
            lemma_children_count_grows(node.children@, k + 1, node.children@.len() as int);
            assert(children_count(node.children@, k + 1) == children_count(node.children@, k as int)
                + node_count(node.children@[k as int]));
        }
        walk_node(&node.children[k], depth + 1, out);
        k = k + 1;
        assert(out@ =~= head + children_dump(node.children@, k as int, (depth + 1) as nat));
    }
    assert(out@ =~= start + dump_text(*node, depth as nat));
}

/// The text a node copies to the clipboard: its subtree's dump.
pub fn format_node_dump(node: &LayoutNode) -> (dump: String)
    requires
        node_count(*node) <= usize::MAX / 4,
    ensures
        dump@ == dump_text(*node, 0),
{
    let mut dump = String::new();
    walk_node(node, 0, &mut dump);
    dump
}

/// `yes` or `no` in the user's language.
pub open spec fn flag_text(language: Language, value: bool) -> Seq<char> {
    if value {
        translation(language, "attr_yes"@)
    } else {
        translation(language, "attr_no"@)
    }
}

/// The attribute pane of a node: label key and value per row.
pub open spec fn attribute_views(language: Language, node: LayoutNode) -> Seq<(Seq<char>, Seq<char>)> {
    seq![
        ("attr_class"@, node.class@),
        ("attr_resource_id"@, node.resource_id@),
        ("attr_text"@, node.text@),
        ("attr_content_desc"@, node.content_description@),
        ("attr_package"@, node.package@),
        ("attr_bounds"@, bounds_text(node.bounds)),
        ("attr_children"@, crate::text::decimal(node.children@.len())),
        ("attr_clickable"@, flag_text(language, node.clickable)),
        ("attr_scrollable"@, flag_text(language, node.scrollable)),
        ("attr_enabled"@, flag_text(language, node.enabled)),
        ("attr_selected"@, flag_text(language, node.selected)),
        ("attr_focused"@, flag_text(language, node.focused)),
    ]
}

fn flag(language: Language, value: bool) -> (shown: String)
    ensures
        shown@ == flag_text(language, value),
{
    if value {
        string_of(chars_of(text(language, "attr_yes")).as_slice())
    } else {
        string_of(chars_of(text(language, "attr_no")).as_slice())
    }
}

/// The rows of the attribute pane.
pub fn attribute_rows(language: Language, node: &LayoutNode) -> (rows: Vec<(&'static str, String)>)
    ensures
        rows@.map_values(|r: (&'static str, String)| (r.0@, r.1@)) == attribute_views(language, *node),
{
    let mut bounds = String::new();
    push_bounds(&mut bounds, &node.bounds);
    let mut rows: Vec<(&'static str, String)> = Vec::new();
    rows.push(("attr_class", node.class.clone()));
    rows.push(("attr_resource_id", node.resource_id.clone()));
    rows.push(("attr_text", node.text.clone()));
    rows.push(("attr_content_desc", node.content_description.clone()));
    rows.push(("attr_package", node.package.clone()));
    rows.push(("attr_bounds", bounds));
    rows.push(("attr_children", string_of(crate::text::decimal_chars(node.children.len() as u64).as_slice())));
    rows.push(("attr_clickable", flag(language, node.clickable)));
    rows.push(("attr_scrollable", flag(language, node.scrollable)));
    rows.push(("attr_enabled", flag(language, node.enabled)));
    rows.push(("attr_selected", flag(language, node.selected)));
    rows.push(("attr_focused", flag(language, node.focused)));
    proof {
        reveal_strlit("attr_class");
        reveal_strlit("attr_resource_id");
        reveal_strlit("attr_text");
        reveal_strlit("attr_content_desc");
        reveal_strlit("attr_package");
        reveal_strlit("attr_bounds");
        reveal_strlit("attr_children");
        reveal_strlit("attr_clickable");
        reveal_strlit("attr_scrollable");
        reveal_strlit("attr_enabled");
        reveal_strlit("attr_selected");
        reveal_strlit("attr_focused");
    }
    assert(rows@.map_values(|r: (&'static str, String)| (r.0@, r.1@)) =~= attribute_views(language, *node));
    rows
}

/// Backend requests of the layout inspector.
pub enum LayoutCommand {
    CaptureLayout { request_id: u64, target: DeviceTarget },
}

/// Backend reports the layout inspector reacts to.
pub enum LayoutEvent {
    LayoutLoading { request_id: u64 },
    LayoutCaptured { request_id: u64, snapshot: LayoutSnapshot },
    LayoutFailed { request_id: u64, error: BridgeError },
}

/// The layout inspector.
pub struct LayoutPanelState {
    pub target: Option<DeviceTarget>,
    /// The capture in flight.
    pub request: Option<u64>,
    pub loading: bool,
    pub snapshot: Option<LayoutSnapshot>,
    pub error: Option<BridgeError>,
    /// The id of the selected node.
    pub selected: Option<usize>,
    pub query: String,
    /// When a capture was last asked for, in milliseconds of the app's clock.
    pub last_capture_attempt: Option<u64>,
}

impl Default for LayoutPanelState {
    fn default() -> (state: Self)
        ensures
            state.target is None,
            state.request is None,
            !state.loading,
            state.snapshot is None,
            state.error is None,
            state.selected is None,
            state.query@.len() == 0,
            state.last_capture_attempt is None,
    {
        LayoutPanelState {
            target: None,
            request: None,
            loading: false,
            snapshot: None,
            error: None,
            selected: None,
            query: String::new(),
            last_capture_attempt: None,
        }
    }
}

/// The inspector `after` following the device `target` from `before`:
/// another device drops the capture, its selection and the request in
/// flight; the search stays.
pub open spec fn follows_target(before: LayoutPanelState, after: LayoutPanelState, target: Option<DeviceTarget>) -> bool {
    if target_view(before.target) == target_view(target) {
        after == before
    } else {
        after == (LayoutPanelState {
            target,
            request: None,
            loading: false,
            snapshot: None,
            error: None,
            selected: None,
            last_capture_attempt: None,
            ..before
        })
    }
}

impl LayoutPanelState {
    /// Follows the selected device: another device drops the capture, its
    /// selection and the request in flight; the search stays.
    pub fn reset_for(&mut self, target: Option<DeviceTarget>)
        ensures
            follows_target(*old(self), *final(self), target),
    {
        if same_target(&self.target, &target) {
            return;
        }
        self.target = target;
        self.request = None;
        self.loading = false;
        self.snapshot = None;
        self.error = None;
        self.selected = None;
        self.last_capture_attempt = None;
    }

    /// Applies one backend report about the capture in flight; others are
    /// ignored. A new capture replaces the old one and clears the selection.
    pub fn handle_event(&mut self, event: LayoutEvent)
        ensures
            match event {
                LayoutEvent::LayoutLoading { request_id } => if old(self).request == Some(request_id) {
                    *final(self) == (LayoutPanelState { loading: true, error: None, ..*old(self) })
                } else {
                    *final(self) == *old(self)
                },
                LayoutEvent::LayoutCaptured { request_id, snapshot } => if old(self).request == Some(
                    request_id,
                ) {
                    *final(self) == (LayoutPanelState {
                        loading: false,
                        error: None,
                        request: None,
                        snapshot: Some(snapshot),
                        selected: None,
                        ..*old(self)
                    })
                } else {
                    *final(self) == *old(self)
                },
                LayoutEvent::LayoutFailed { request_id, error } => if old(self).request == Some(request_id) {
                    *final(self) == (LayoutPanelState {
                        loading: false,
                        error: Some(error),
                        request: None,
                        ..*old(self)
                    })
                } else {
                    *final(self) == *old(self)
                },
            },
    {
        match event {
            LayoutEvent::LayoutLoading { request_id } => {
                if self.request == Some(request_id) {
                    self.loading = true;
                    self.error = None;
                }
            },
            LayoutEvent::LayoutCaptured { request_id, snapshot } => {
                if self.request == Some(request_id) {
                    self.loading = false;
                    self.error = None;
                    self.request = None;
                    self.snapshot = Some(snapshot);
                    self.selected = None;
                }
            },
            LayoutEvent::LayoutFailed { request_id, error } => {
                if self.request == Some(request_id) {
                    self.loading = false;
                    self.error = Some(error);
                    self.request = None;
                }
            },
        }
    }

    /// The selected node of the capture, if it still exists.
    pub fn selected_node(&self) -> (node: Option<&LayoutNode>)
        ensures
            match (self.snapshot, self.selected) {
                (Some(snapshot), Some(id)) => match node {
                    Some(n) => found(snapshot.root, id) == Some(*n),
                    None => found(snapshot.root, id) is None,
                },
                _ => node is None,
            },
    {
        let snapshot = match &self.snapshot {
            Some(s) => s,
            None => {
                return None;
            },
        };
        let id = match self.selected {
            Some(id) => id,
            None => {
                return None;
            },
        };
        find_node(&snapshot.root, id)
    }

    /// The refresh button, enabled with a device while no capture runs:
    /// asks for a capture under `request_id` at `now_ms`.
    pub fn capture(&mut self, request_id: u64, now_ms: u64) -> (command: Option<LayoutCommand>)
        ensures
            match old(self).target {
                Some(t) => if !old(self).loading {
                    &&& command matches Some(LayoutCommand::CaptureLayout { request_id: id, target })
                        && id == request_id && target@ == t@
                    &&& *final(self) == (LayoutPanelState {
                        request: Some(request_id),
                        error: None,
                        last_capture_attempt: Some(now_ms),
                        ..*old(self)
                    })
                } else {
                    command is None && *final(self) == *old(self)
                },
                None => command is None && *final(self) == *old(self),
            },
    {
        if self.loading {
            return None;
        }
        match &self.target {
            Some(t) => {
                let target = t.duplicate();
                self.request = Some(request_id);
                self.error = None;
                self.last_capture_attempt = Some(now_ms);
                Some(LayoutCommand::CaptureLayout { request_id, target })
            },
            None => None,
        }
    }
}

/// Whether the automatic capture fires: the device is online, nothing is
/// loading, requested or captured, the last attempt is not recent, and a
/// device is selected.
pub open spec fn auto_capture_due(state: LayoutPanelState, online: bool, now_ms: u64) -> bool {
    &&& online
    &&& !state.loading
    &&& state.request is None
    &&& state.snapshot is None
    &&& !(state.last_capture_attempt matches Some(l) && !(now_ms >= l && now_ms - l >= AUTO_CAPTURE_RETRY_MS))
    &&& state.target is Some
}

/// Called each frame at `now_ms`: captures the hierarchy by itself the first
/// time the panel is shown, retrying with a backoff while nothing came.
pub fn auto_capture(state: &mut LayoutPanelState, target_online: bool, now_ms: u64, request_id: u64) -> (command: Option<
    LayoutCommand,
>)
    ensures
        auto_capture_due(*old(state), target_online, now_ms) ==> (command matches Some(
            LayoutCommand::CaptureLayout { request_id: id, target },
        ) && id == request_id && target@ == old(state).target->0@) && *final(state) == (LayoutPanelState {
            request: Some(request_id),
            last_capture_attempt: Some(now_ms),
            ..*old(state)
        }),
        !auto_capture_due(*old(state), target_online, now_ms) ==> command is None && *final(state)
            == *old(state),
{
    if !target_online || state.loading || state.request.is_some() || state.snapshot.is_some() {
        return None;
    }
    let recently = match state.last_capture_attempt {
        Some(last) => !(now_ms >= last && now_ms - last >= AUTO_CAPTURE_RETRY_MS),
        None => false,
    };
    if recently {
        return None;
    }
    let target = match &state.target {
        Some(t) => t.duplicate(),
        None => {
            return None;
        },
    };
    state.request = Some(request_id);
    state.last_capture_attempt = Some(now_ms);
    Some(LayoutCommand::CaptureLayout { request_id, target })
}

} // verus!
