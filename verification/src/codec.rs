//! The serialised form of a split tree.
//!
//! One line per layout, so a reader can open the file, see the arrangement
//! and edit it. `V0.336(silhouette,V0.505(geometry,health))` reads as a
//! vertical split giving the left child 33.6% of the width, whose right child
//! is itself a vertical split.
//!
//! Positions in error messages count characters of the trimmed text. Every
//! character the reader steps over is ASCII, so they are byte offsets too.

use vstd::prelude::*;
use crate::layout::{Direction, LeafId, Node, PanelType, WHOLE};
use crate::ratio::{
    digit_value, first_dot, first_non_zero, fraction_digit, fraction_part, significant, whole_part,
    push_ratio_shown, push_ratio_text, ratio_over_one, ratio_over_one_exec, ratio_run,
    ratio_shown, ratio_syntax, ratio_syntax_ok, ratio_text, ratio_thousandths,
    ratio_thousandths_exec, is_ratio_char,
};
use crate::text::{
    chars_of, decimal, digit_spec, is_digit_spec, is_alphanumeric, is_alphanumeric_spec, is_digit, owned, push_char,
    push_decimal, push_str, same_chars,
};

verus! {

/// The text of a tree: a panel's token, or a split's direction, ratio and
/// two children in brackets.
pub open spec fn encode_spec(node: Node) -> Seq<char>
    decreases node,
{
    match node {
        Node::Leaf { panel, .. } => panel.token_spec(),
        Node::Split { dir, ratio, first, second } => seq![dir.token_spec()] + ratio_text(ratio)
            + seq!['('] + encode_spec(*first) + seq![','] + encode_spec(*second) + seq![')'],
    }
}

/// Appends the text of a tree.
pub fn write_node(node: &Node, out: &mut String)
    requires
        node.ratios_ok(),
    ensures
        final(out)@ == old(out)@ + encode_spec(*node),
    decreases node,
{
    match node {
        Node::Leaf { panel, .. } => {
            push_str(out, panel.token());
        },
        Node::Split { dir, ratio, first, second } => {
            push_char(out, dir.token());
            push_ratio_text(out, *ratio);
            push_char(out, '(');
            write_node(first, out);
            push_char(out, ',');
            write_node(second, out);
            push_char(out, ')');
            assert(out@ =~= old(out)@ + encode_spec(*node));
        },
    }
}

/// A character that can stand in a panel token.
pub open spec fn is_token_char(c: char) -> bool {
    is_alphanumeric_spec(c) || c == '_'
}

/// The first index at or after `at` that is not a space.
pub open spec fn skip_spaces(t: Seq<char>, at: int) -> int
    decreases t.len() - at,
{
    if 0 <= at < t.len() && t[at] == ' ' {
        skip_spaces(t, at + 1)
    } else {
        at
    }
}

/// The end of the run of ratio characters starting at `at`.
pub open spec fn ratio_end(t: Seq<char>, at: int) -> int
    decreases t.len() - at,
{
    if 0 <= at < t.len() && is_ratio_char(t[at]) {
        ratio_end(t, at + 1)
    } else {
        at
    }
}

/// The end of the run of token characters starting at `at`.
pub open spec fn token_end(t: Seq<char>, at: int) -> int
    decreases t.len() - at,
{
    if 0 <= at < t.len() && is_token_char(t[at]) {
        token_end(t, at + 1)
    } else {
        at
    }
}

/// The panel a token names, if any.
pub open spec fn panel_for_token(s: Seq<char>) -> Option<PanelType> {
    if s == PanelType::Geometry.token_spec() {
        Some(PanelType::Geometry)
    } else if s == PanelType::Health.token_spec() {
        Some(PanelType::Health)
    } else if s == PanelType::Meshes.token_spec() {
        Some(PanelType::Meshes)
    } else if s == PanelType::Materials.token_spec() {
        Some(PanelType::Materials)
    } else if s == PanelType::Silhouette.token_spec() {
        Some(PanelType::Silhouette)
    } else if s == PanelType::Uv.token_spec() {
        Some(PanelType::Uv)
    } else if s == PanelType::Validation.token_spec() {
        Some(PanelType::Validation)
    } else if s == PanelType::Distributions.token_spec() {
        Some(PanelType::Distributions)
    } else if s == PanelType::Textures.token_spec() {
        Some(PanelType::Textures)
    } else if s == PanelType::Bounds.token_spec() {
        Some(PanelType::Bounds)
    } else if s == PanelType::Catalogue.token_spec() {
        Some(PanelType::Catalogue)
    } else {
        None
    }
}

/// The message for a missing punctuation character.
pub open spec fn expected_message(c: char, at: int) -> Seq<char> {
    "expected '"@ + seq![c] + "' at byte "@ + decimal(at as nat)
}

/// Read one node at `at`, numbering leaves from `next`: the node, where
/// reading stopped, and the next unused number; or what went wrong.
pub open spec fn parse_spec(t: Seq<char>, at: int, next: nat) -> Result<(Node, int, nat), Seq<char>>
    decreases t.len() - at,
{
    let p = skip_spaces(t, at);
    if p < 0 || p >= t.len() {
        Err("expected a panel or a split at byte "@ + decimal(p as nat))
    } else if t[p] == 'V' || t[p] == 'H' {
        let dir = if t[p] == 'V' {
            Direction::Vertical
        } else {
            Direction::Horizontal
        };
        let q = p + 1;
        let e = ratio_end(t, q);
        let digits = t.subrange(q, e);
        if e <= q {
            Err("split at byte "@ + decimal(q as nat) + " has no ratio"@)
        } else if !ratio_syntax_ok(digits) {
            Err(digits + " is not a ratio"@)
        } else if ratio_over_one(digits) {
            Err("ratio "@ + ratio_shown(digits) + " is outside 0 to 1"@)
        } else {
            let o = skip_spaces(t, e);
            if !(0 <= o < t.len() && t[o] == '(') {
                Err(expected_message('(', o))
            } else if o + 1 <= at {
                Err(Seq::empty())
            } else {
                match parse_spec(t, o + 1, next) {
                    Err(m) => Err(m),
                    Ok((first, p1, n1)) => {
                        let c = skip_spaces(t, p1);
                        if !(0 <= c < t.len() && t[c] == ',') {
                            Err(expected_message(',', c))
                        } else if c + 1 <= at {
                            Err(Seq::empty())
                        } else {
                            match parse_spec(t, c + 1, n1) {
                                Err(m) => Err(m),
                                Ok((second, p2, n2)) => {
                                    let d = skip_spaces(t, p2);
                                    if !(0 <= d < t.len() && t[d] == ')') {
                                        Err(expected_message(')', d))
                                    } else {
                                        Ok(
                                            (
                                                Node::Split {
                                                    dir,
                                                    ratio: ratio_thousandths(digits) as u16,
                                                    first: Box::new(first),
                                                    second: Box::new(second),
                                                },
                                                d + 1,
                                                n2,
                                            ),
                                        )
                                    }
                                },
                            }
                        }
                    },
                }
            }
        }
    } else {
        let e = token_end(t, p);
        if e <= p {
            Err("expected a panel name at byte "@ + decimal(p as nat))
        } else {
            match panel_for_token(t.subrange(p, e)) {
                None => Err(t.subrange(p, e) + " is not a panel this version knows"@),
                Some(panel) => Ok((Node::Leaf { id: LeafId(next as u32), panel }, e, next + 1)),
            }
        }
    }
}

/// Every leaf id lies in `lo .. hi`.
pub open spec fn ids_within(node: Node, lo: nat, hi: nat) -> bool
    decreases node,
{
    match node {
        Node::Leaf { id, .. } => lo <= id.0 && id.0 < hi,
        Node::Split { first, second, .. } => ids_within(*first, lo, hi) && ids_within(*second, lo, hi),
    }
}

pub proof fn lemma_ids_within_contains(node: Node, lo: nat, hi: nat, x: LeafId)
    requires
        ids_within(node, lo, hi),
        node.contains_spec(x),
    ensures
        lo <= x.0 < hi,
    decreases node,
{
    match node {
        Node::Leaf { .. } => {},
        Node::Split { first, second, .. } => {
            if first.contains_spec(x) {
                lemma_ids_within_contains(*first, lo, hi, x);
            } else {
                lemma_ids_within_contains(*second, lo, hi, x);
            }
        },
    }
}

pub proof fn lemma_ids_within_widen(node: Node, lo: nat, hi: nat, lo2: nat, hi2: nat)
    requires
        ids_within(node, lo, hi),
        lo2 <= lo,
        hi <= hi2,
    ensures
        ids_within(node, lo2, hi2),
    decreases node,
{
    match node {
        Node::Leaf { .. } => {},
        Node::Split { first, second, .. } => {
            lemma_ids_within_widen(*first, lo, hi, lo2, hi2);
            lemma_ids_within_widen(*second, lo, hi, lo2, hi2);
        },
    }
}

pub proof fn lemma_ids_within_below(node: Node, lo: nat, hi: nat)
    requires
        ids_within(node, lo, hi),
        hi <= u32::MAX,
    ensures
        node.ids_below(hi as u32),
    decreases node,
{
    match node {
        Node::Leaf { .. } => {},
        Node::Split { first, second, .. } => {
            lemma_ids_within_below(*first, lo, hi);
            lemma_ids_within_below(*second, lo, hi);
        },
    }
}


pub fn skip_spaces_exec(t: &Vec<char>, at: usize) -> (r: usize)
    requires
        at <= t.len(),
    ensures
        r == skip_spaces(t@, at as int),
        at <= r <= t.len(),
{
    let mut i: usize = at;
    while i < t.len() && t[i] == ' '
        invariant
            at <= i <= t.len(),
            skip_spaces(t@, at as int) == skip_spaces(t@, i as int),
        decreases t.len() - i,
    {
        i = i + 1;
    }
    i
}

fn ratio_end_exec(t: &Vec<char>, at: usize) -> (r: usize)
    requires
        at <= t.len(),
    ensures
        r == ratio_end(t@, at as int),
        at <= r <= t.len(),
        forall|k: int| at <= k < r ==> is_ratio_char(#[trigger] t@[k]),
{
    let mut i: usize = at;
    while i < t.len() && (is_digit(t[i]) || t[i] == '.')
        invariant
            at <= i <= t.len(),
            ratio_end(t@, at as int) == ratio_end(t@, i as int),
            forall|k: int| at <= k < i ==> is_ratio_char(#[trigger] t@[k]),
        decreases t.len() - i,
    {
        i = i + 1;
    }
    i
}

fn token_end_exec(t: &Vec<char>, at: usize) -> (r: usize)
    requires
        at <= t.len(),
    ensures
        r == token_end(t@, at as int),
        at <= r <= t.len(),
{
    let mut i: usize = at;
    while i < t.len() && (is_alphanumeric(t[i]) || t[i] == '_')
        invariant
            at <= i <= t.len(),
            token_end(t@, at as int) == token_end(t@, i as int),
        decreases t.len() - i,
    {
        i = i + 1;
    }
    i
}

fn slice_of(t: &Vec<char>, from: usize, to: usize) -> (r: Vec<char>)
    requires
        from <= to <= t.len(),
    ensures
        r@ == t@.subrange(from as int, to as int),
{
    let mut r: Vec<char> = Vec::new();
    let mut i: usize = from;
    while i < to
        invariant
            from <= i <= to,
            to <= t.len(),
            r@ == t@.subrange(from as int, i as int),
        decreases to - i,
    {
        r.push(t[i]);
        i = i + 1;
        assert(r@ =~= t@.subrange(from as int, i as int));
    }
    r
}

fn token_is(tok: &Vec<char>, panel: PanelType) -> (b: bool)
    ensures
        b == (tok@ == panel.token_spec()),
{
    let name = chars_of(panel.token());
    same_chars(tok, &name)
}

/// The panel a token names, if any.
fn panel_for_token_exec(tok: &Vec<char>) -> (r: Option<PanelType>)
    ensures
        r == panel_for_token(tok@),
{
    if token_is(tok, PanelType::Geometry) {
        Some(PanelType::Geometry)
    } else if token_is(tok, PanelType::Health) {
        Some(PanelType::Health)
    } else if token_is(tok, PanelType::Meshes) {
        Some(PanelType::Meshes)
    } else if token_is(tok, PanelType::Materials) {
        Some(PanelType::Materials)
    } else if token_is(tok, PanelType::Silhouette) {
        Some(PanelType::Silhouette)
    } else if token_is(tok, PanelType::Uv) {
        Some(PanelType::Uv)
    } else if token_is(tok, PanelType::Validation) {
        Some(PanelType::Validation)
    } else if token_is(tok, PanelType::Distributions) {
        Some(PanelType::Distributions)
    } else if token_is(tok, PanelType::Textures) {
        Some(PanelType::Textures)
    } else if token_is(tok, PanelType::Bounds) {
        Some(PanelType::Bounds)
    } else if token_is(tok, PanelType::Catalogue) {
        Some(PanelType::Catalogue)
    } else {
        None
    }
}

/// `prefix` followed by a position.
fn at_message(prefix: &str, at: usize) -> (m: String)
    ensures
        m@ == prefix@ + decimal(at as nat),
{
    let mut m = owned(prefix);
    push_decimal(&mut m, at as u64);
    m
}

fn expected_exec(c: char, at: usize) -> (m: String)
    ensures
        m@ == expected_message(c, at as int),
{
    let mut m = owned("expected '");
    push_char(&mut m, c);
    push_str(&mut m, "' at byte ");
    push_decimal(&mut m, at as u64);
    assert(m@ =~= expected_message(c, at as int));
    m
}

/// What a parse of one node produced, stated against the grammar.
pub open spec fn parse_agrees(
    r: Result<(Node, usize, u32), String>,
    t: Seq<char>,
    at: int,
    next: nat,
) -> bool {
    match r {
        Ok((n, e, k)) => {
            &&& parse_spec(t, at, next) == Ok::<(Node, int, nat), Seq<char>>((n, e as int, k as nat))
            &&& at < e <= t.len()
            &&& next < k
            &&& k - next <= e - at
            &&& n.ratios_ok()
            &&& n.distinct()
            &&& ids_within(n, next, k as nat)
        },
        Err(m) => parse_spec(t, at, next) == Err::<(Node, int, nat), Seq<char>>(m@),
    }
}

/// Read one node at `at`, numbering leaves from `next`.
pub fn parse_node(t: &Vec<char>, at: usize, next: u32) -> (r: Result<(Node, usize, u32), String>)
    requires
        at <= t.len(),
        next + (t.len() - at) <= u32::MAX,
    ensures
        parse_agrees(r, t@, at as int, next as nat),
    decreases t.len() - at,
{
    let p = skip_spaces_exec(t, at);
    if p >= t.len() {
        return Err(at_message("expected a panel or a split at byte ", p));
    }
    if t[p] == 'V' || t[p] == 'H' {
        let dir = if t[p] == 'V' {
            Direction::Vertical
        } else {
            Direction::Horizontal
        };
        let q = p + 1;
        let e = ratio_end_exec(t, q);
        if e <= q {
            let mut m = at_message("split at byte ", q);
            push_str(&mut m, " has no ratio");
            return Err(m);
        }
        let digits = slice_of(t, q, e);
        assert(ratio_run(digits@)) by {
            assert forall|k: int| 0 <= k < digits@.len() implies is_ratio_char(#[trigger] digits@[k]) by {
                assert(digits@[k] == t@[q + k]);
            }
        }
        if !ratio_syntax(&digits) {
            let mut m: String = String::new();
            crate::text::push_chars(&mut m, &digits);
            push_str(&mut m, " is not a ratio");
            assert(m@ =~= digits@ + " is not a ratio"@);
            return Err(m);
        }
        if ratio_over_one_exec(&digits) {
            let mut m = owned("ratio ");
            push_ratio_shown(&mut m, &digits);
            push_str(&mut m, " is outside 0 to 1");
            return Err(m);
        }
        let ratio = ratio_thousandths_exec(&digits);
        let o = skip_spaces_exec(t, e);
        if !(o < t.len() && t[o] == '(') {
            return Err(expected_exec('(', o));
        }
        let first = parse_node(t, o + 1, next);
        match first {
            Err(m) => {
                return Err(m);
            },
            Ok((first, p1, n1)) => {
                let c = skip_spaces_exec(t, p1);
                if !(c < t.len() && t[c] == ',') {
                    return Err(expected_exec(',', c));
                }
                let second = parse_node(t, c + 1, n1);
                match second {
                    Err(m) => {
                        return Err(m);
                    },
                    Ok((second, p2, n2)) => {
                        let d = skip_spaces_exec(t, p2);
                        if !(d < t.len() && t[d] == ')') {
                            return Err(expected_exec(')', d));
                        }
                        proof {
                            assert forall|x: LeafId| !(first.contains_spec(x) && second.contains_spec(x)) by {
                                if first.contains_spec(x) && second.contains_spec(x) {
                                    lemma_ids_within_contains(first, next as nat, n1 as nat, x);
                                    lemma_ids_within_contains(second, n1 as nat, n2 as nat, x);
                                }
                            }
                            lemma_ids_within_widen(first, next as nat, n1 as nat, next as nat, n2 as nat);
                            lemma_ids_within_widen(second, n1 as nat, n2 as nat, next as nat, n2 as nat);
                        }
                        let node = Node::Split {
                            dir,
                            ratio,
                            first: Box::new(first),
                            second: Box::new(second),
                        };
                        return Ok((node, d + 1, n2));
                    },
                }
            },
        }
    }
    let e = token_end_exec(t, p);
    if e <= p {
        return Err(at_message("expected a panel name at byte ", p));
    }
    let token = slice_of(t, p, e);
    match panel_for_token_exec(&token) {
        None => {
            let mut m: String = String::new();
            crate::text::push_chars(&mut m, &token);
            push_str(&mut m, " is not a panel this version knows");
            assert(m@ =~= token@ + " is not a panel this version knows"@);
            Err(m)
        },
        Some(panel) => Ok((Node::Leaf { id: LeafId(next), panel }, e, next + 1)),
    }
}


/// A tree with its leaves numbered afresh from `next`, in the order they are
/// written.
pub open spec fn renumber(node: Node, next: nat) -> Node
    decreases node,
{
    match node {
        Node::Leaf { panel, .. } => Node::Leaf { id: LeafId(next as u32), panel },
        Node::Split { dir, ratio, first, second } => Node::Split {
            dir,
            ratio,
            first: Box::new(renumber(*first, next)),
            second: Box::new(renumber(*second, next + first.leaf_count())),
        },
    }
}

/// The text of a tree does not depend on its leaf ids.
pub proof fn lemma_encode_renumber(node: Node, next: nat)
    ensures
        encode_spec(renumber(node, next)) == encode_spec(node),
        renumber(node, next).leaf_count() == node.leaf_count(),
        renumber(node, next).ratios_ok() == node.ratios_ok(),
    decreases node,
{
    match node {
        Node::Leaf { .. } => {},
        Node::Split { first, second, .. } => {
            lemma_encode_renumber(*first, next);
            lemma_encode_renumber(*second, next + first.leaf_count());
        },
    }
}

/// Every token is a run of lower case letters that no other panel shares.
proof fn lemma_token(panel: PanelType)
    ensures
        panel.token_spec().len() > 0,
        forall|k: int|
            0 <= k < panel.token_spec().len() ==> 'a' <= #[trigger] panel.token_spec()[k] <= 'z',
        panel_for_token(panel.token_spec()) == Some(panel),
{
    reveal_strlit("geometry");
    reveal_strlit("health");
    reveal_strlit("meshes");
    reveal_strlit("materials");
    reveal_strlit("silhouette");
    reveal_strlit("uv");
    reveal_strlit("validation");
    reveal_strlit("distributions");
    reveal_strlit("textures");
    reveal_strlit("bounds");
    reveal_strlit("catalogue");
    let g = "geometry"@;
    let h = "health"@;
    let me = "meshes"@;
    let ma = "materials"@;
    let si = "silhouette"@;
    let uv = "uv"@;
    let va = "validation"@;
    let di = "distributions"@;
    let te = "textures"@;
    let bo = "bounds"@;
    let ca = "catalogue"@;
    assert(g.len() == 8 && h.len() == 6 && me.len() == 6 && ma.len() == 9 && si.len() == 10);
    assert(uv.len() == 2 && va.len() == 10 && di.len() == 13 && te.len() == 8 && bo.len() == 6);
    assert(ca.len() == 9);
    match panel {
        PanelType::Geometry => {},
        PanelType::Health => {
            assert(h != g);
        },
        PanelType::Meshes => {
            assert(me != g);
            assert(me[0] != h[0]);
        },
        PanelType::Materials => {
            assert(ma != g && ma != h && ma != me);
        },
        PanelType::Silhouette => {
            assert(si != g && si != h && si != me && si != ma);
        },
        PanelType::Uv => {
            assert(uv != g && uv != h && uv != me && uv != ma && uv != si);
        },
        PanelType::Validation => {
            assert(va != g && va != h && va != me && va != ma && va != uv);
            assert(va[0] != si[0]);
        },
        PanelType::Distributions => {
            assert(di != g && di != h && di != me && di != ma && di != si && di != uv && di != va);
        },
        PanelType::Textures => {
            assert(te != h && te != me && te != ma && te != si && te != uv && te != va && te != di);
            assert(te[0] != g[0]);
        },
        PanelType::Bounds => {
            assert(bo != g && bo != ma && bo != si && bo != uv && bo != va && bo != di && bo != te);
            assert(bo[0] != h[0] && bo[0] != me[0]);
        },
        PanelType::Catalogue => {
            assert(ca != g && ca != h && ca != me && ca != si && ca != uv && ca != va && ca != di
                && ca != te && ca != bo);
            assert(ca[0] != ma[0]);
        },
    }
}

pub proof fn lemma_token_end_run(t: Seq<char>, at: int, end: int)
    requires
        0 <= at <= end <= t.len(),
        forall|k: int| at <= k < end ==> is_token_char(#[trigger] t[k]),
        end == t.len() || !is_token_char(t[end]),
    ensures
        token_end(t, at) == end,
    decreases end - at,
{
    if at < end {
        lemma_token_end_run(t, at + 1, end);
    }
}

pub proof fn lemma_ratio_end_run(t: Seq<char>, at: int, end: int)
    requires
        0 <= at <= end <= t.len(),
        forall|k: int| at <= k < end ==> is_ratio_char(#[trigger] t[k]),
        end == t.len() || !is_ratio_char(t[end]),
    ensures
        ratio_end(t, at) == end,
    decreases end - at,
{
    if at < end {
        lemma_ratio_end_run(t, at + 1, end);
    }
}


proof fn lemma_digit_char(x: int)
    requires
        0 <= x <= 9,
    ensures
        is_digit_spec(digit_spec(x)),
        digit_value(digit_spec(x)) == x,
        digit_spec(x) != '.',
        digit_spec(x) == '0' <==> x == 0,
        digit_spec(x) == '1' <==> x == 1,
{
}

/// Three decimals read back as the same number of thousandths.
pub proof fn lemma_ratio_text(r: u16)
    requires
        r <= WHOLE,
    ensures
        ratio_text(r).len() == 5,
        ratio_run(ratio_text(r)),
        ratio_syntax_ok(ratio_text(r)),
        !ratio_over_one(ratio_text(r)),
        ratio_thousandths(ratio_text(r)) == r as int,
        is_digit_spec(ratio_text(r)[0]),
{
    let t = ratio_text(r);
    let x0 = r as int / 1000;
    let x1 = (r as int / 100) % 10;
    let x2 = (r as int / 10) % 10;
    let x3 = r as int % 10;
    lemma_digit_char(x0);
    lemma_digit_char(x1);
    lemma_digit_char(x2);
    lemma_digit_char(x3);
    assert(t[0] == digit_spec(x0) && t[1] == '.' && t[2] == digit_spec(x1));
    assert(t[3] == digit_spec(x2) && t[4] == digit_spec(x3));
    assert(is_digit_spec(t[0]));
    assert(t.len() == 5);
    assert(t[0] != '.');
    assert(first_dot(t, 1) == 1);
    assert(first_dot(t, 0) == 1);
    let w = whole_part(t);
    assert(w =~= seq![t[0]]);
    let f = fraction_part(t);
    assert(f =~= seq![t[2], t[3], t[4]]);
    if x0 == 0 {
        assert(first_non_zero(w, 1) == 1);
        assert(significant(t).len() == 0);
        assert(fraction_digit(t, 0) == x1);
        assert(fraction_digit(t, 1) == x2);
        assert(fraction_digit(t, 2) == x3);
        assert(fraction_digit(t, 3) == 0);
        assert(100 * x1 + 10 * x2 + x3 == r);
    } else {
        assert(x0 == 1);
        assert(r == 1000);
        assert(significant(t) =~= seq![t[0]]);
        assert(x1 == 0 && x2 == 0 && x3 == 0);
        assert(forall|i: int| 0 <= i < f.len() ==> #[trigger] f[i] == '0');
    }
    assert forall|i: int, j: int| 0 <= i < j < t.len() implies !(#[trigger] t[i] == '.'
        && #[trigger] t[j] == '.') by {
        if i != 1 {
            assert(t[i] != '.');
        } else {
            assert(t[j] != '.');
        }
    }
    assert forall|i: int| 0 <= i < t.len() implies is_ratio_char(#[trigger] t[i]) by {}
}


/// The text of a tree starts with a direction or a letter and ends with a
/// bracket or a letter.
pub proof fn lemma_encode_ends(node: Node)
    ensures
        encode_spec(node).len() > 0,
        ({
            let c = encode_spec(node)[0];
            c == 'V' || c == 'H' || ('a' <= c <= 'z')
        }),
        ({
            let c = encode_spec(node).last();
            c == ')' || ('a' <= c <= 'z')
        }),
{
    match node {
        Node::Leaf { panel, .. } => {
            lemma_token(panel);
            assert(encode_spec(node)[0] == panel.token_spec()[0]);
        },
        Node::Split { dir, ratio, first, second } => {
            let enc = encode_spec(node);
            let rest = ratio_text(ratio) + seq!['('] + encode_spec(*first) + seq![','] + encode_spec(
                *second,
            ) + seq![')'];
            assert(enc =~= seq![dir.token_spec()] + rest);
            assert(enc[0] == dir.token_spec());
        },
    }
}

/// Reading the text of a tree, wherever it stands in a longer text and
/// followed by something that cannot continue a token, gives the tree back
/// with its leaves numbered afresh.
pub proof fn lemma_parse_encoded(t: Seq<char>, at: int, node: Node, next: nat)
    requires
        node.ratios_ok(),
        0 <= at,
        at + encode_spec(node).len() <= t.len(),
        forall|k: int|
            0 <= k < encode_spec(node).len() ==> t[at + k] == #[trigger] encode_spec(node)[k],
        at + encode_spec(node).len() == t.len() || !is_token_char(t[at + encode_spec(node).len()]),
    ensures
        parse_spec(t, at, next) == Ok::<(Node, int, nat), Seq<char>>(
            (renumber(node, next), at + encode_spec(node).len(), next + node.leaf_count()),
        ),
    decreases node,
{
    match node {
        Node::Leaf { panel, .. } => {
            lemma_token(panel);
            let tok = panel.token_spec();
            assert(t[at + 0] == tok[0]);
            assert(skip_spaces(t, at) == at);
            assert forall|k: int| at <= k < at + tok.len() implies is_token_char(#[trigger] t[k]) by {
                assert(t[at + (k - at)] == tok[k - at]);
            }
            lemma_token_end_run(t, at, at + tok.len());
            assert(t.subrange(at, at + tok.len()) =~= tok) by {
                assert forall|k: int| 0 <= k < tok.len() implies #[trigger] t.subrange(
                    at,
                    at + tok.len(),
                )[k] == tok[k] by {
                    assert(t[at + k] == tok[k]);
                }
            }
        },
        Node::Split { dir, ratio, first, second } => {
            lemma_ratio_text(ratio);
            let enc = encode_spec(node);
            let rt = ratio_text(ratio);
            let e1 = encode_spec(*first);
            let e2 = encode_spec(*second);
            let l1 = e1.len() as int;
            let l2 = e2.len() as int;
            assert(enc == seq![dir.token_spec()] + rt + seq!['('] + e1 + seq![','] + e2 + seq![')']);
            assert(enc.len() == 9 + l1 + l2);
            assert(t[at] == dir.token_spec()) by {
                assert(t[at + 0] == enc[0]);
            }
            assert forall|k: int| 0 <= k < 5 implies t[at + 1 + k] == #[trigger] rt[k] by {
                assert(t[at + (1 + k)] == enc[1 + k]);
            }
            assert(t[at + 6] == '(') by {
                assert(t[at + 6] == enc[6]);
            }
            assert forall|k: int| 0 <= k < l1 implies t[at + 7 + k] == #[trigger] e1[k] by {
                assert(t[at + (7 + k)] == enc[7 + k]);
            }
            assert(t[at + 7 + l1] == ',') by {
                assert(t[at + (7 + l1)] == enc[7 + l1]);
            }
            assert forall|k: int| 0 <= k < l2 implies t[at + 8 + l1 + k] == #[trigger] e2[k] by {
                assert(t[at + (8 + l1 + k)] == enc[8 + l1 + k]);
            }
            assert(t[at + 8 + l1 + l2] == ')') by {
                assert(t[at + (8 + l1 + l2)] == enc[8 + l1 + l2]);
            }
            assert(skip_spaces(t, at) == at);
            let q = at + 1;
            assert forall|k: int| q <= k < q + 5 implies is_ratio_char(#[trigger] t[k]) by {
                assert(t[at + 1 + (k - q)] == rt[k - q]);
            }
            lemma_ratio_end_run(t, q, q + 5);
            assert(t.subrange(q, q + 5) =~= rt) by {
                assert forall|k: int| 0 <= k < 5 implies #[trigger] t.subrange(q, q + 5)[k] == rt[k] by {
                    assert(t[at + 1 + k] == rt[k]);
                }
            }
            assert(skip_spaces(t, q + 5) == q + 5);
            lemma_parse_encoded(t, at + 7, *first, next);
            assert(skip_spaces(t, at + 7 + l1) == at + 7 + l1);
            lemma_parse_encoded(t, at + 8 + l1, *second, next + first.leaf_count());
            assert(skip_spaces(t, at + 8 + l1 + l2) == at + 8 + l1 + l2);
        },
    }
}

} // verus!
