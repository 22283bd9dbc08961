//! The classifications of a document, and the semantic tokens for them.

use std::sync::Arc;
use vstd::prelude::*;
use crate::error::LspError;
use crate::language_server::AssetOrDocument;
use crate::text;
use crate::text::LineIndex;

verus! {

/// The bits of a classification that are its modifiers.
pub const MODIFIER_MASK: u32 = 255;

/// How far to the left the type of a classification stands.
pub const TYPE_OFFSET: u32 = 8;

/// A token, at its place.
#[derive(Debug, Clone, Copy, PartialEq, Eq, Structural)]
pub struct PlacedToken {
    pub line: u32,
    pub start: u32,
    pub length: u32,
    pub token_type: u32,
    pub token_modifiers: u32,
}

/// A token, at its distance from the one before it.
#[derive(Debug, Clone, Copy, PartialEq, Eq, Structural)]
pub struct SemanticToken {
    pub delta_line: u32,
    pub delta_start: u32,
    pub length: u32,
    pub token_type: u32,
    pub token_modifiers_bitset: u32,
}

/// A token stands before another.
pub open spec fn stands_before(a: PlacedToken, b: PlacedToken) -> bool {
    a.line < b.line || (a.line == b.line && a.start < b.start)
}

/// A list of tokens in order, with one more put in behind those that it does not stand before.
pub open spec fn put_in(tokens: Seq<PlacedToken>, token: PlacedToken) -> Seq<PlacedToken>
    decreases tokens.len(),
{
    if tokens.len() == 0 || !stands_before(token, tokens.last()) {
        tokens.push(token)
    } else {
        put_in(tokens.drop_last(), token).push(tokens.last())
    }
}

/// Tokens in the order in which they stand; those at the same place in the order in which they came.
pub open spec fn in_place_order(tokens: Seq<PlacedToken>) -> Seq<PlacedToken>
    decreases tokens.len(),
{
    if tokens.len() == 0 {
        tokens
    } else {
        put_in(in_place_order(tokens.drop_last()), tokens.last())
    }
}

/// A token at its distance from the place of the one before it.
pub open spec fn at_distance(line: u32, start: u32, token: PlacedToken) -> SemanticToken {
    SemanticToken {
        delta_line: (token.line - line) as u32,
        delta_start: if token.line == line {
            (token.start - start) as u32
        } else {
            token.start
        },
        length: token.length,
        token_type: token.token_type,
        token_modifiers_bitset: token.token_modifiers,
    }
}

/// Tokens in order, each at its distance from the one before it, and the first from the start.
pub open spec fn distances(tokens: Seq<PlacedToken>) -> Seq<SemanticToken> {
    Seq::new(
        tokens.len(),
        |i: int|
            if i == 0 {
                at_distance(0, 0, tokens[0])
            } else {
                at_distance(tokens[i - 1].line, tokens[i - 1].start, tokens[i])
            },
    )
}

/// No token stands before an earlier one of the list.
pub open spec fn is_ordered(tokens: Seq<PlacedToken>) -> bool {
    forall|i: int, j: int|
        0 <= i < j < tokens.len() ==> !stands_before(#[trigger] tokens[j], #[trigger] tokens[i])
}

proof fn lemma_put_in(tokens: Seq<PlacedToken>, token: PlacedToken)
    requires
        is_ordered(tokens),
    ensures
        is_ordered(put_in(tokens, token)),
        forall|i: int|
            0 <= i < put_in(tokens, token).len() ==> #[trigger] put_in(tokens, token)[i] == token
                || tokens.contains(put_in(tokens, token)[i]),
    decreases tokens.len(),
{
    let after = put_in(tokens, token);
    if tokens.len() == 0 || !stands_before(token, tokens.last()) {
        assert forall|i: int, j: int| 0 <= i < j < after.len() implies !stands_before(
            #[trigger] after[j],
            #[trigger] after[i],
        ) by {
            if j == tokens.len() {
                if i < tokens.len() - 1 {
                    assert(!stands_before(tokens.last(), tokens[i]));
                }
            }
        }
        assert forall|i: int| 0 <= i < after.len() implies #[trigger] after[i] == token
            || tokens.contains(after[i]) by {
            if i < tokens.len() {
                assert(tokens[i] == after[i]);
            }
        }
    } else {
        let before = tokens.drop_last();
        lemma_put_in(before, token);
        let inner = put_in(before, token);
        assert forall|i: int, j: int| 0 <= i < j < after.len() implies !stands_before(
            #[trigger] after[j],
            #[trigger] after[i],
        ) by {
            if j < inner.len() {
                assert(after[j] == inner[j]);
                assert(after[i] == inner[i]);
            } else {
                assert(after[i] == inner[i]);
                if inner[i] != token {
                    let k = choose|k: int| 0 <= k < before.len() && before[k] == inner[i];
                    assert(tokens[k] == inner[i]);
                    assert(!stands_before(tokens[tokens.len() - 1], tokens[k]));
                }
            }
        }
        assert forall|i: int| 0 <= i < after.len() implies #[trigger] after[i] == token
            || tokens.contains(after[i]) by {
            if i < inner.len() {
                assert(after[i] == inner[i]);
                if inner[i] != token {
                    let k = choose|k: int| 0 <= k < before.len() && before[k] == inner[i];
                    assert(tokens[k] == inner[i]);
                }
            } else {
                assert(tokens[tokens.len() - 1] == after[i]);
            }
        }
    }
}

/// Tokens in place order are ordered.
pub proof fn law_tokens_are_ordered(tokens: Seq<PlacedToken>)
    ensures
        is_ordered(in_place_order(tokens)),
    decreases tokens.len(),
{
    if tokens.len() > 0 {
        law_tokens_are_ordered(tokens.drop_last());
        lemma_put_in(in_place_order(tokens.drop_last()), tokens.last());
    }
}

/// Tokens that came in order stay as they came.
pub proof fn law_ordered_tokens_stay(tokens: Seq<PlacedToken>)
    requires
        is_ordered(tokens),
    ensures
        in_place_order(tokens) == tokens,
    decreases tokens.len(),
{
    if tokens.len() > 0 {
        law_ordered_tokens_stay(tokens.drop_last());
        if tokens.len() > 1 {
            assert(!stands_before(tokens[tokens.len() - 1], tokens[tokens.len() - 2]));
        }
        assert(tokens.drop_last().push(tokens.last()) =~= tokens);
    }
}

/// Builds a list of tokens.
pub struct SemanticTokensBuilder {
    tokens: Vec<PlacedToken>,
    pushed: Ghost<Seq<PlacedToken>>,
}

impl View for SemanticTokensBuilder {
    type V = Seq<PlacedToken>;

    closed spec fn view(&self) -> Seq<PlacedToken> {
        self.pushed@
    }
}

impl SemanticTokensBuilder {
    #[verifier::type_invariant]
    spec fn inv(self) -> bool {
        self.tokens@ == in_place_order(self.pushed@)
    }

    /// A builder without tokens.
    pub fn new() -> (r: SemanticTokensBuilder)
        ensures
            r@ == Seq::<PlacedToken>::empty(),
    {
        SemanticTokensBuilder { tokens: Vec::new(), pushed: Ghost(Seq::empty()) }
    }

    /// Adds a token.
    pub fn push(
        self,
        line: u32,
        start: u32,
        length: u32,
        token_type: u32,
        token_modifiers: u32,
    ) -> (r: SemanticTokensBuilder)
        ensures
            r@ == self@.push(PlacedToken { line, start, length, token_type, token_modifiers }),
    {
        proof {
            use_type_invariant(&self);
        }
        let token = PlacedToken { line, start, length, token_type, token_modifiers };
        let mut tokens = self.tokens;
        let ghost before = tokens@;
        let mut at: usize = tokens.len();
        assert(before.take(at as int) =~= before);
        assert(put_in(before, token) =~= put_in(before.take(at as int), token) + before.skip(
            at as int,
        ));
        while at > 0 && (line < tokens[at - 1].line || (line == tokens[at - 1].line && start
            < tokens[at - 1].start))
            invariant
                at <= tokens@.len(),
                tokens@ == before,
                token == (PlacedToken { line, start, length, token_type, token_modifiers }),
                put_in(before, token) == put_in(before.take(at as int), token) + before.skip(
                    at as int,
                ),
            decreases at,
        {
            proof {
                assert(before.take(at as int).drop_last() =~= before.take(at - 1));
                assert(put_in(before.take(at as int), token) + before.skip(at as int) =~= put_in(
                    before.take(at - 1),
                    token,
                ) + before.skip(at - 1));
            }
            at = at - 1;
        }
        tokens.insert(at, token);
        proof {
            assert(tokens@ =~= before.take(at as int).push(token) + before.skip(at as int));
            let pushed = self.pushed@.push(token);
            assert(pushed.drop_last() =~= self.pushed@);
        }
        SemanticTokensBuilder { tokens, pushed: Ghost(self.pushed@.push(token)) }
    }

    /// The tokens in the order in which they stand, each at its distance from the one before it.
    pub fn build(self) -> (r: Vec<SemanticToken>)
        ensures
            r@ == distances(in_place_order(self@)),
    {
        proof {
            use_type_invariant(&self);
            law_tokens_are_ordered(self.pushed@);
        }
        let mut out: Vec<SemanticToken> = Vec::new();
        let mut line: u32 = 0;
        let mut start: u32 = 0;
        let mut i: usize = 0;
        while i < self.tokens.len()
            invariant
                i <= self.tokens@.len(),
                out@.len() == i,
                is_ordered(self.tokens@),
                i == 0 ==> line == 0 && start == 0,
                i > 0 ==> line == self.tokens@[i - 1].line && start == self.tokens@[i - 1].start,
                forall|j: int|
                    0 <= j < i ==> #[trigger] out@[j] == distances(self.tokens@)[j],
            decreases self.tokens.len() - i,
        {
            let token = self.tokens[i];
            proof {
                if i > 0 {
                    assert(!stands_before(self.tokens@[i as int], self.tokens@[i - 1]));
                }
            }
            let delta_start: u32 = if token.line == line {
                token.start - start
            } else {
                token.start
            };
            out.push(
                SemanticToken {
                    delta_line: token.line - line,
                    delta_start,
                    length: token.length,
                    token_type: token.token_type,
                    token_modifiers_bitset: token.token_modifiers,
                },
            );
            line = token.line;
            start = token.start;
            i = i + 1;
        }
        assert(out@ =~= distances(self.tokens@));
        out
    }
}

/// The classifications of a document: for each token its offset, its length and its classification.
#[derive(Debug)]
pub struct Classifications {
    pub spans: Vec<u32>,
}

/// The type in a classification.
pub open spec fn token_type(classification: u32) -> int {
    (classification >> TYPE_OFFSET) - 1
}

/// The token for an offset, a length and a classification, where it lies on one line.
pub open spec fn token_at(
    offset: u32,
    length: u32,
    classification: u32,
    lines: Seq<text::LineView>,
) -> Option<PlacedToken> {
    let start = text::position_at(lines, offset as nat);
    let end = text::position_at(lines, (offset + length) as nat);
    if start.line == end.line && start.character <= end.character {
        Some(
            PlacedToken {
                line: start.line,
                start: start.character,
                length: (end.character - start.character) as u32,
                token_type: token_type(classification) as u32,
                token_modifiers: classification & MODIFIER_MASK,
            },
        )
    } else {
        None
    }
}

/// The first tokens of a document, where each lies on one line.
pub open spec fn tokens_of(spans: Seq<u32>, lines: Seq<text::LineView>, n: nat) -> Option<
    Seq<PlacedToken>,
>
    decreases n,
{
    if n == 0 {
        Some(Seq::empty())
    } else {
        let i = 3 * (n - 1);
        match (
            tokens_of(spans, lines, (n - 1) as nat),
            token_at(spans[i], spans[i + 1], spans[i + 2], lines),
        ) {
            (Some(before), Some(token)) => Some(before.push(token)),
            _ => None,
        }
    }
}

/// A token that lies on more than one line is among all that follow too.
proof fn lemma_no_tokens(spans: Seq<u32>, lines: Seq<text::LineView>, n: nat, m: nat)
    requires
        n <= m,
        tokens_of(spans, lines, n) is None,
    ensures
        tokens_of(spans, lines, m) is None,
    decreases m - n,
{
    if n < m {
        lemma_no_tokens(spans, lines, n, (m - 1) as nat);
    }
}

impl Classifications {
    /// How many tokens there are.
    pub open spec fn count(self) -> nat {
        self.spans@.len() / 3
    }

    /// A token that is reached has a type, and ends at an offset that can be counted.
    pub open spec fn is_sound(self, lines: Seq<text::LineView>) -> bool {
        forall|i: nat|
            i < self.count() && #[trigger] tokens_of(self.spans@, lines, i) is Some
                ==> self.spans@[3 * i as int + 2] > MODIFIER_MASK && self.spans@[3 * i as int]
                + self.spans@[3 * i as int + 1] <= u32::MAX
    }

    /// The semantic tokens of the document; an internal error where one of them does not lie on one
    /// line.
    pub fn to_semantic_tokens(
        &self,
        _asset_or_doc: &AssetOrDocument,
        line_index: Arc<LineIndex>,
    ) -> (r: Result<Vec<SemanticToken>, LspError>)
        requires
            self.is_sound(line_index@),
        ensures
            match tokens_of(self.spans@, line_index@, self.count()) {
                Some(tokens) => r matches Ok(data) && data@ == distances(in_place_order(tokens)),
                None => r matches Err(err) && err == LspError::InternalError,
            },
    {
        let len: usize = self.spans.len();
        let token_count: usize = len / 3;
        let mut builder = SemanticTokensBuilder::new();
        let mut i: usize = 0;
        while i < token_count
            invariant
                i <= token_count,
                token_count == self.count(),
                self.spans@.len() == len,
                self.is_sound(line_index@),
                tokens_of(self.spans@, line_index@, i as nat) == Some(builder@),
            decreases token_count - i,
        {
            assert(3 * i + 2 < self.spans@.len());
            let src_offset: usize = 3 * i;
            let offset: u32 = self.spans[src_offset];
            let length: u32 = self.spans[src_offset + 1];
            let ts_classification: u32 = self.spans[src_offset + 2];
            assert(tokens_of(self.spans@, line_index@, i as nat) is Some);
            let token_type: u32 = Classifications::get_token_type_from_classification(
                ts_classification,
            );
            let token_modifiers: u32 = Classifications::get_token_modifier_from_classification(
                ts_classification,
            );
            let start_pos = line_index.position_tsc(offset);
            let end_pos = line_index.position_tsc(offset + length);
            if start_pos.line == end_pos.line && start_pos.character <= end_pos.character {
                builder =
                builder.push(
                    start_pos.line,
                    start_pos.character,
                    end_pos.character - start_pos.character,
                    token_type,
                    token_modifiers,
                );
            } else {
                proof {
                    assert(tokens_of(self.spans@, line_index@, (i + 1) as nat) is None);
                    lemma_no_tokens(self.spans@, line_index@, (i + 1) as nat, self.count());
                }
                return Err(LspError::InternalError);
            }
            i = i + 1;
        }
        Ok(builder.build())
    }

    /// The type in a classification.
    fn get_token_type_from_classification(ts_classification: u32) -> (r: u32)
        requires
            ts_classification > MODIFIER_MASK,
        ensures
            r == token_type(ts_classification),
    {
        assert(ts_classification > 255 ==> ts_classification >> 8 >= 1) by (bit_vector);
        (ts_classification >> TYPE_OFFSET) - 1
    }

    /// The modifiers in a classification.
    fn get_token_modifier_from_classification(ts_classification: u32) -> (r: u32)
        ensures
            r == ts_classification & MODIFIER_MASK,
    {
        ts_classification & MODIFIER_MASK
    }
}

/// The type and the modifiers of a classification together give it back.
pub proof fn law_classification_is_kept(c: u32)
    requires
        c > MODIFIER_MASK,
    ensures
        c & MODIFIER_MASK <= MODIFIER_MASK,
        (((token_type(c) + 1) as u32) << TYPE_OFFSET) | (c & MODIFIER_MASK) == c,
{
    assert(c & 255 <= 255) by (bit_vector);
    assert(((c >> 8) << 8) | (c & 255) == c) by (bit_vector);
}

proof fn lemma_put_in_keeps_all(tokens: Seq<PlacedToken>, token: PlacedToken)
    ensures
        put_in(tokens, token).to_multiset() == tokens.to_multiset().insert(token),
        put_in(tokens, token).len() == tokens.len() + 1,
    decreases tokens.len(),
{
    if tokens.len() == 0 || !stands_before(token, tokens.last()) {
        tokens.to_multiset_ensures();
    } else {
        let before = tokens.drop_last();
        lemma_put_in_keeps_all(before, token);
        before.to_multiset_ensures();
        put_in(before, token).to_multiset_ensures();
        assert(before.push(tokens.last()) =~= tokens);
        assert(put_in(tokens, token).to_multiset() =~= tokens.to_multiset().insert(token));
    }
}

/// Putting tokens in order loses none and adds none.
pub proof fn law_no_token_is_lost(tokens: Seq<PlacedToken>)
    ensures
        in_place_order(tokens).to_multiset() == tokens.to_multiset(),
        in_place_order(tokens).len() == tokens.len(),
    decreases tokens.len(),
{
    if tokens.len() > 0 {
        let before = tokens.drop_last();
        law_no_token_is_lost(before);
        lemma_put_in_keeps_all(in_place_order(before), tokens.last());
        before.to_multiset_ensures();
        assert(before.push(tokens.last()) =~= tokens);
    }
}

/// The place of a token is found again from that of the one before it: as many lines further on as its
/// distance says, and, on the same line, as many characters. Its length, type and modifiers are its
/// own. The first token is found from the start of the document.
pub proof fn law_distances_lead_to_tokens(tokens: Seq<PlacedToken>, i: int)
    requires
        is_ordered(tokens),
        0 <= i < tokens.len(),
    ensures
        distances(tokens).len() == tokens.len(),
        ({
            let token = tokens[i];
            let step = distances(tokens)[i];
            &&& i == 0 ==> step.delta_line == token.line && step.delta_start == token.start
            &&& i > 0 ==> tokens[i - 1].line + step.delta_line == token.line
            &&& i > 0 && step.delta_line == 0 ==> tokens[i - 1].start + step.delta_start
                == token.start
            &&& i > 0 && step.delta_line > 0 ==> step.delta_start == token.start
            &&& step.length == token.length
            &&& step.token_type == token.token_type
            &&& step.token_modifiers_bitset == token.token_modifiers
        }),
{
    if i > 0 {
        assert(!stands_before(tokens[i], tokens[i - 1]));
    }
}

/// There is one token for each three numbers: it begins at the place of the first, ends at the place
/// that lies the second further on, and the third tells its type, which is counted from one there,
/// above the lowest byte and its modifiers in that byte. Each of them lies on one line.
pub proof fn law_each_span_is_one_token(
    spans: Seq<u32>,
    lines: Seq<text::LineView>,
    n: nat,
    i: int,
)
    requires
        tokens_of(spans, lines, n) is Some,
        3 * n <= spans.len(),
        0 <= i < n,
        spans[3 * i + 2] > MODIFIER_MASK,
    ensures
        ({
            let tokens = tokens_of(spans, lines, n)->0;
            let start = text::position_at(lines, spans[3 * i] as nat);
            let end = text::position_at(lines, (spans[3 * i] + spans[3 * i + 1]) as nat);
            let classification = spans[3 * i + 2] as int;
            &&& tokens.len() == n
            &&& tokens[i].line == start.line
            &&& tokens[i].line == end.line
            &&& tokens[i].start == start.character
            &&& tokens[i].start + tokens[i].length == end.character
            &&& tokens[i].token_type + 1 == classification / 256
            &&& tokens[i].token_modifiers == classification % 256
        }),
    decreases n,
{
    if i < n - 1 {
        law_each_span_is_one_token(spans, lines, (n - 1) as nat, i);
    } else {
        let c: u32 = spans[3 * i + 2];
        assert(c >> 8 == c / 256 && c & 255 == c % 256) by (bit_vector);
        if n > 1 {
            assert(tokens_of(spans, lines, (n - 1) as nat) is Some);
            lemma_token_count(spans, lines, (n - 1) as nat);
        }
    }
    lemma_token_count(spans, lines, n);
}

proof fn lemma_token_count(spans: Seq<u32>, lines: Seq<text::LineView>, n: nat)
    requires
        tokens_of(spans, lines, n) is Some,
    ensures
        tokens_of(spans, lines, n)->0.len() == n,
    decreases n,
{
    if n > 0 {
        lemma_token_count(spans, lines, (n - 1) as nat);
    }
}

/// There are no tokens just where one of them ends on another line than it begins on, or before its
/// beginning.
pub proof fn law_tokens_lie_on_one_line(spans: Seq<u32>, lines: Seq<text::LineView>, n: nat)
    ensures
        tokens_of(spans, lines, n) is Some <==> forall|i: int|
            #![trigger spans[3 * i]]
            0 <= i < n ==> {
                let start = text::position_at(lines, spans[3 * i] as nat);
                let end = text::position_at(lines, (spans[3 * i] + spans[3 * i + 1]) as nat);
                start.line == end.line && start.character <= end.character
            },
    decreases n,
{
    if n > 0 {
        law_tokens_lie_on_one_line(spans, lines, (n - 1) as nat);
        let last = n - 1;
        let start = text::position_at(lines, spans[3 * last] as nat);
        let end = text::position_at(lines, (spans[3 * last] + spans[3 * last + 1]) as nat);
        assert(spans[3 * last] == spans[3 * (n - 1)]);
    }
}

} // verus!
