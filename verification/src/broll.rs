//! Searching the project's own managed images and videos for B-roll: the
//! text each asset is matched on, its score against a query, and the ranked
//! list of matches the search tool answers with.
use vstd::prelude::*;
use crate::media::AssetKind;
use crate::error::ApiError;
use crate::json::JsonValue;
use crate::requests::{join_words, search_index_spec, search_index_text};
use crate::requests::{char_vec_views, required_string, split_words, words};
use crate::text::{
    char_views, chars_of, contains, contains_seq, copy_string, decimal, lemma_lex_irreflexive,
    lemma_lex_transitive, lex_less, lex_lt, no_control, push_decimal, string_of, trim, trim_spec,
    any_control,
};

verus! {

/// Where an asset came from, as far as search reads it.
#[derive(Debug)]
pub enum BrollProvenance {
    Imported { source_name: Option<String> },
    Generated { provider: String, model: String, prompt: String },
    Derived { operation: String },
}

/// What B-roll search reads of one project asset.
#[derive(Debug)]
pub struct BrollAsset {
    pub id: String,
    pub name: String,
    pub kind: AssetKind,
    /// The content hash of a managed asset.
    pub content_hash: Option<String>,
    pub provenance: BrollProvenance,
    /// The asset's `webCapture` extension, when it has one.
    pub web_capture: Option<JsonValue>,
}

/// One ranked search result.
#[derive(Debug)]
pub struct BrollSearchMatch {
    pub asset_id: String,
    pub name: String,
    pub kind: String,
    pub score: u32,
    pub match_reasons: Vec<String>,
    pub content_hash: String,
}

/// The data of a search result.
pub struct MatchView {
    pub asset_id: Seq<char>,
    pub name: Seq<char>,
    pub kind: Seq<char>,
    pub score: u32,
    pub match_reasons: Seq<Seq<char>>,
    pub content_hash: Seq<char>,
}

pub open spec fn string_views(v: Seq<String>) -> Seq<Seq<char>> {
    v.map_values(|s: String| s@)
}

impl View for BrollSearchMatch {
    type V = MatchView;

    open spec fn view(&self) -> MatchView {
        MatchView {
            asset_id: self.asset_id@,
            name: self.name@,
            kind: self.kind@,
            score: self.score,
            match_reasons: string_views(self.match_reasons@),
            content_hash: self.content_hash@,
        }
    }
}

pub open spec fn opt_seq(o: Option<Seq<char>>) -> Seq<Seq<char>> {
    match o {
        Some(s) => seq![s],
        None => Seq::empty(),
    }
}

/// The provenance texts an asset is matched on.
pub open spec fn provenance_values(p: BrollProvenance) -> Seq<Seq<char>> {
    match p {
        BrollProvenance::Imported { source_name } => match source_name {
            Some(n) => seq![n@],
            None => Seq::empty(),
        },
        BrollProvenance::Generated { provider, model, prompt } => seq![provider@, model@, prompt@],
        BrollProvenance::Derived { operation } => seq![operation@],
    }
}

/// The string elements of a JSON array, in order.
pub open spec fn string_items(items: Seq<JsonValue>) -> Seq<Seq<char>>
    decreases items.len(),
{
    if items.len() == 0 {
        Seq::empty()
    } else {
        string_items(items.drop_last()) + opt_seq(items.last().str_view())
    }
}

pub open spec fn array_items(v: Option<JsonValue>) -> Seq<JsonValue> {
    match v {
        Some(JsonValue::Array(x)) => x@,
        _ => Seq::empty(),
    }
}

/// The web-capture texts an asset is matched on: the extraction's title,
/// description and selling points.
pub open spec fn extraction_values(web: Option<JsonValue>) -> Seq<Seq<char>> {
    match web {
        None => Seq::empty(),
        Some(w) => match w.field("extraction"@) {
            None => Seq::empty(),
            Some(e) => opt_seq(e.field_str("title"@)) + opt_seq(e.field_str("description"@))
                + string_items(array_items(e.field("sellingPoints"@))),
        },
    }
}

pub open spec fn metadata_values(a: BrollAsset) -> Seq<Seq<char>> {
    provenance_values(a.provenance) + extraction_values(a.web_capture)
}

/// The normalized metadata text an asset is matched on.
pub open spec fn metadata_text(a: BrollAsset) -> Seq<char> {
    search_index_spec(join_words(metadata_values(a)))
}

fn push_opt(values: &mut Vec<Vec<char>>, s: Option<&str>)
    ensures
        char_views(final(values)@) == char_views(old(values)@) + opt_seq(
            match s {
                Some(t) => Some(t@),
                None => None,
            },
        ),
{
    let ghost before = char_views(values@);
    match s {
        Some(t) => {
            values.push(chars_of(t));
            assert(char_views(values@) =~= before + seq![t@]);
        },
        None => {
            assert(char_views(values@) =~= before + Seq::<Seq<char>>::empty());
        },
    }
}

fn join_with_spaces(values: &Vec<Vec<char>>) -> (r: Vec<char>)
    ensures
        r@ == join_words(char_views(values@)),
{
    let mut out: Vec<char> = Vec::new();
    let mut i: usize = 0;
    while i < values.len()
        invariant
            i <= values.len(),
            out@ == join_words(char_views(values@).subrange(0, i as int)),
        decreases values.len() - i,
    {
        let ghost vs = char_views(values@);
        assert(vs.subrange(0, i + 1).drop_last() =~= vs.subrange(0, i as int));
        assert(vs.subrange(0, i + 1).last() == values@[i as int]@);
        if i > 0 {
            out.push(' ');
        }
        let mut w = values[i].clone();
        out.append(&mut w);
        i += 1;
    }
    assert(char_views(values@).subrange(0, values.len() as int) =~= char_views(values@));
    out
}

/// The normalized metadata text of an asset: its provenance texts and its
/// web-capture title, description and selling points, joined and normalized
/// as search text.
pub fn broll_asset_metadata_text(asset: &BrollAsset) -> (r: String)
    ensures
        r@ == metadata_text(*asset),
{
    let mut values: Vec<Vec<char>> = Vec::new();
    match &asset.provenance {
        BrollProvenance::Imported { source_name } => {
            match source_name {
                Some(n) => {
                    values.push(chars_of(n.as_str()));
                },
                None => {},
            }
        },
        BrollProvenance::Generated { provider, model, prompt } => {
            values.push(chars_of(provider.as_str()));
            values.push(chars_of(model.as_str()));
            values.push(chars_of(prompt.as_str()));
        },
        BrollProvenance::Derived { operation } => {
            values.push(chars_of(operation.as_str()));
        },
    }
    assert(char_views(values@) =~= provenance_values(asset.provenance));
    let ghost prov = char_views(values@);
    match &asset.web_capture {
        None => {},
        Some(w) => match w.get("extraction") {
            None => {},
            Some(e) => {
                push_opt(&mut values, e.get_str("title"));
                push_opt(&mut values, e.get_str("description"));
                let ghost head = char_views(values@);
                match e.get("sellingPoints") {
                    Some(JsonValue::Array(items)) => {
                        let mut i: usize = 0;
                        while i < items.len()
                            invariant
                                i <= items.len(),
                                char_views(values@) == head + string_items(
                                    items@.subrange(0, i as int),
                                ),
                            decreases items.len() - i,
                        {
                            assert(items@.subrange(0, i + 1).drop_last() =~= items@.subrange(
                                0,
                                i as int,
                            ));
                            let ghost before = char_views(values@);
                            push_opt(&mut values, items[i].as_str());
                            assert(char_views(values@) =~= head + string_items(
                                items@.subrange(0, i + 1),
                            ));
                            i += 1;
                        }
                        assert(items@.subrange(0, items.len() as int) =~= items@);
                    },
                    _ => {
                        assert(char_views(values@) =~= head + Seq::<Seq<char>>::empty());
                    },
                }
            },
        },
    }
    assert(char_views(values@) =~= metadata_values(*asset));
    let joined = join_with_spaces(&values);
    let text = string_of(joined.as_slice());
    search_index_text(text.as_str())
}


/// Points and reason for the query as a whole: the name equals it, the name
/// holds it, or the metadata holds it.
pub open spec fn phrase_hit(name: Seq<char>, metadata: Seq<char>, query: Seq<char>) -> Option<
    (nat, Seq<char>),
> {
    if name == query {
        Some((160nat, "exactName"@))
    } else if query.len() > 0 && contains_seq(name, query) {
        Some((90nat, "namePhrase"@))
    } else if query.len() > 0 && contains_seq(metadata, query) {
        Some((50nat, "metadataPhrase"@))
    } else {
        None
    }
}

/// How many query tokens the name holds, and how many of the others the
/// metadata holds.
pub open spec fn token_hits(name: Seq<char>, metadata: Seq<char>, tokens: Seq<Seq<char>>) -> (
    nat,
    nat,
)
    decreases tokens.len(),
{
    if tokens.len() == 0 {
        (0, 0)
    } else {
        let (a, b) = token_hits(name, metadata, tokens.drop_last());
        if contains_seq(name, tokens.last()) {
            ((a + 1) as nat, b)
        } else if contains_seq(metadata, tokens.last()) {
            (a, (b + 1) as nat)
        } else {
            (a, b)
        }
    }
}

pub open spec fn phrase_points(name: Seq<char>, metadata: Seq<char>, query: Seq<char>) -> nat {
    match phrase_hit(name, metadata, query) {
        Some((p, _)) => p,
        None => 0,
    }
}

/// The score of an asset: 160, 90 or 50 for the phrase, 30 for each token in
/// the name and 10 for each other token in the metadata.
pub open spec fn broll_score(a: BrollAsset, query: Seq<char>, tokens: Seq<Seq<char>>) -> nat {
    let name = search_index_spec(a.name@);
    let meta = metadata_text(a);
    let (n, m) = token_hits(name, meta, tokens);
    phrase_points(name, meta, query) + 30 * n + 10 * m
}

/// The reasons reported with a score, in order.
pub open spec fn broll_reasons(a: BrollAsset, query: Seq<char>, tokens: Seq<Seq<char>>) -> Seq<
    Seq<char>,
> {
    let name = search_index_spec(a.name@);
    let meta = metadata_text(a);
    let (n, m) = token_hits(name, meta, tokens);
    (match phrase_hit(name, meta, query) {
        Some((_, reason)) => seq![reason],
        None => Seq::empty(),
    }) + (if n > 0 {
        seq!["nameTokens:"@ + decimal(n)]
    } else {
        Seq::empty()
    }) + (if m > 0 {
        seq!["metadataTokens:"@ + decimal(m)]
    } else {
        Seq::empty()
    })
}

pub open spec fn kind_label(k: AssetKind) -> Option<Seq<char>> {
    match k {
        AssetKind::Image => Some("image"@),
        AssetKind::Video => Some("video"@),
        _ => None,
    }
}

/// The search result for an asset: none for a zero score, an asset that is
/// neither image nor video, or one without a content hash.
pub open spec fn broll_match(a: BrollAsset, query: Seq<char>, tokens: Seq<Seq<char>>) -> Option<
    MatchView,
> {
    if broll_score(a, query, tokens) == 0 || kind_label(a.kind) is None || a.content_hash is None {
        None
    } else {
        Some(
            MatchView {
                asset_id: a.id@,
                name: a.name@,
                kind: kind_label(a.kind).unwrap(),
                score: broll_score(a, query, tokens) as u32,
                match_reasons: broll_reasons(a, query, tokens),
                content_hash: a.content_hash.unwrap()@,
            },
        )
    }
}

proof fn lemma_token_hits_bound(name: Seq<char>, metadata: Seq<char>, tokens: Seq<Seq<char>>)
    ensures
        token_hits(name, metadata, tokens).0 + token_hits(name, metadata, tokens).1 <= tokens.len(),
    decreases tokens.len(),
{
    if tokens.len() > 0 {
        lemma_token_hits_bound(name, metadata, tokens.drop_last());
    }
}

fn reason_with_count(prefix: &str, n: u32) -> (r: String)
    ensures
        r@ == prefix@ + decimal(n as nat),
{
    let mut v = chars_of(prefix);
    push_decimal(&mut v, n as u64);
    string_of(v.as_slice())
}

/// Scores one asset against a normalized query and its distinct tokens.
/// The provenance of a result is that of the asset it names.
pub fn score_broll_asset(asset: &BrollAsset, query: &str, query_tokens: &Vec<Vec<char>>) -> (r:
    Option<BrollSearchMatch>)
    requires
        160 + 30 * query_tokens.len() <= u32::MAX,
    ensures
        match r {
            Some(m) => broll_match(*asset, query@, char_views(query_tokens@)) == Some(m@),
            None => broll_match(*asset, query@, char_views(query_tokens@)) is None,
        },
{
    let name = search_index_text(asset.name.as_str());
    let metadata = broll_asset_metadata_text(asset);
    let name_chars = chars_of(name.as_str());
    let meta_chars = chars_of(metadata.as_str());
    let query_chars = chars_of(query);
    let ghost toks = char_views(query_tokens@);
    let mut score: u32 = 0;
    let mut reasons: Vec<String> = Vec::new();
    proof {
        reveal_strlit("exactName");
        reveal_strlit("namePhrase");
        reveal_strlit("metadataPhrase");
    }
    if crate::text::seq_eq(name_chars.as_slice(), query_chars.as_slice()) {
        score = 160;
        reasons.push(copy_string("exactName"));
    } else if query_chars.len() > 0 && contains(name_chars.as_slice(), query_chars.as_slice()) {
        score = 90;
        reasons.push(copy_string("namePhrase"));
    } else if query_chars.len() > 0 && contains(meta_chars.as_slice(), query_chars.as_slice()) {
        score = 50;
        reasons.push(copy_string("metadataPhrase"));
    }
    let ghost phrase = string_views(reasons@);
    assert(score == phrase_points(name@, metadata@, query@));
    let mut name_tokens: u32 = 0;
    let mut metadata_tokens: u32 = 0;
    let mut i: usize = 0;
    while i < query_tokens.len()
        invariant
            i <= query_tokens.len(),
            160 + 30 * query_tokens.len() <= u32::MAX,
            toks == char_views(query_tokens@),
            (name_tokens as nat, metadata_tokens as nat) == token_hits(
                name@,
                metadata@,
                toks.subrange(0, i as int),
            ),
            score == phrase_points(name@, metadata@, query@) + 30 * name_tokens + 10
                * metadata_tokens,
            phrase_points(name@, metadata@, query@) <= 160,
            name_chars@ == name@,
            meta_chars@ == metadata@,
        decreases query_tokens.len() - i,
    {
        proof {
            assert(toks.subrange(0, i + 1).drop_last() =~= toks.subrange(0, i as int));
            lemma_token_hits_bound(name@, metadata@, toks.subrange(0, i as int));
        }
        if contains(name_chars.as_slice(), query_tokens[i].as_slice()) {
            score = score + 30;
            name_tokens = name_tokens + 1;
        } else if contains(meta_chars.as_slice(), query_tokens[i].as_slice()) {
            score = score + 10;
            metadata_tokens = metadata_tokens + 1;
        }
        i += 1;
    }
    assert(toks.subrange(0, query_tokens.len() as int) =~= toks);
    if name_tokens > 0 {
        reasons.push(reason_with_count("nameTokens:", name_tokens));
    }
    if metadata_tokens > 0 {
        reasons.push(reason_with_count("metadataTokens:", metadata_tokens));
    }
    assert(string_views(reasons@) =~= broll_reasons(*asset, query@, toks));
    if score == 0 {
        return None;
    }
    let kind = match asset.kind {
        AssetKind::Image => copy_string("image"),
        AssetKind::Video => copy_string("video"),
        _ => {
            return None;
        },
    };
    let content_hash = match &asset.content_hash {
        Some(h) => copy_string(h.as_str()),
        None => {
            return None;
        },
    };
    Some(
        BrollSearchMatch {
            asset_id: copy_string(asset.id.as_str()),
            name: copy_string(asset.name.as_str()),
            kind,
            score,
            match_reasons: reasons,
            content_hash,
        },
    )
}


/// The lower-cased form of a string (`str::to_lowercase`), by which results
/// of equal score are ordered.
pub uninterp spec fn str_lowercase(s: Seq<char>) -> Seq<char>;

/// `str::to_lowercase`.
#[verifier::external_body]
fn lowercase_string(s: &str) -> (r: String)
    ensures
        r@ == str_lowercase(s@),
{
    s.to_lowercase()
}

/// Result `a` ranks before result `b`: a higher score, then the lower-cased
/// name, then the asset id, each compared as strings.
pub open spec fn ranks_before(a: MatchView, b: MatchView) -> bool {
    a.score > b.score || (a.score == b.score && (lex_lt(str_lowercase(a.name), str_lowercase(b.name))
        || (str_lowercase(a.name) == str_lowercase(b.name) && lex_lt(a.asset_id, b.asset_id))))
}

pub proof fn lemma_ranks_before_transitive(a: MatchView, b: MatchView, c: MatchView)
    requires
        ranks_before(a, b),
        ranks_before(b, c),
    ensures
        ranks_before(a, c),
{
    let (la, lb, lc) = (str_lowercase(a.name), str_lowercase(b.name), str_lowercase(c.name));
    if a.score == b.score && b.score == c.score {
        if lex_lt(la, lb) && lex_lt(lb, lc) {
            lemma_lex_transitive(la, lb, lc);
        } else if lex_lt(la, lb) {
            assert(lb == lc);
        } else if lex_lt(lb, lc) {
            assert(la == lb);
        } else {
            lemma_lex_transitive(a.asset_id, b.asset_id, c.asset_id);
        }
    }
}

pub proof fn lemma_ranks_before_irreflexive(a: MatchView)
    ensures
        !ranks_before(a, a),
{
    lemma_lex_irreflexive(str_lowercase(a.name));
    lemma_lex_irreflexive(a.asset_id);
}

/// The distinct elements of a sequence, in order of first occurrence.
pub open spec fn distinct_seq(s: Seq<Seq<char>>) -> Seq<Seq<char>>
    decreases s.len(),
{
    if s.len() == 0 {
        Seq::empty()
    } else {
        let d = distinct_seq(s.drop_last());
        if d.contains(s.last()) {
            d
        } else {
            d.push(s.last())
        }
    }
}

/// The distinct search tokens of a query.
pub open spec fn query_tokens(query: Seq<char>) -> Seq<Seq<char>> {
    distinct_seq(words(search_index_spec(query)))
}

/// The results for each asset in order, skipping assets without one.
pub open spec fn broll_candidates(
    assets: Seq<BrollAsset>,
    query: Seq<char>,
    tokens: Seq<Seq<char>>,
) -> Seq<MatchView>
    decreases assets.len(),
{
    if assets.len() == 0 {
        Seq::empty()
    } else {
        let c = broll_candidates(assets.drop_last(), query, tokens);
        match broll_match(assets.last(), query, tokens) {
            Some(m) => c.push(m),
            None => c,
        }
    }
}

/// `picked` lists the candidates at the distinct positions `p`, best ranked
/// first: no candidate ranks before an earlier pick, no candidate left out
/// ranks before any pick, at most `limit` are picked, and fewer only when
/// every candidate is.
pub open spec fn ranked_selection(
    picked: Seq<MatchView>,
    cands: Seq<MatchView>,
    limit: int,
    p: Seq<int>,
) -> bool {
    &&& p.len() == picked.len()
    &&& picked.len() <= limit
    &&& forall|i: int| 0 <= i < p.len() ==> 0 <= #[trigger] p[i] < cands.len() && picked[i]
        == cands[p[i]]
    &&& forall|i: int, j: int| 0 <= i < j < p.len() ==> p[i] != p[j]
    &&& forall|i: int, j: int|
        0 <= i < j < picked.len() ==> !ranks_before(#[trigger] picked[j], #[trigger] picked[i])
    &&& forall|k: int, i: int|
        0 <= k < cands.len() && !p.contains(k) && 0 <= i < picked.len() ==> !ranks_before(
            #[trigger] cands[k],
            #[trigger] picked[i],
        )
    &&& picked.len() < limit ==> forall|k: int| 0 <= k < cands.len() ==> p.contains(k)
}

pub open spec fn broll_query_valid(q: Seq<char>) -> bool {
    trim_spec(q).len() > 0 && vstd::utf8::encode_utf8(q).len() <= 500 && no_control(q)
}

pub open spec fn broll_limit(input: JsonValue) -> int {
    match input.field_u64("limit"@) {
        Some(n) => n as int,
        None => 12,
    }
}

/// The query's distinct tokens are few enough for scores to fit in `u32`.
pub open spec fn broll_query_fits(input: JsonValue) -> bool {
    match input.field_str("query"@) {
        Some(q) => 160 + 30 * query_tokens(q).len() <= u32::MAX,
        None => true,
    }
}

/// What the B-roll search answers for a tool input and the project's assets.
pub open spec fn search_broll_answer(
    input: JsonValue,
    assets: Seq<BrollAsset>,
    r: Result<Seq<MatchView>, (u16, Seq<char>)>,
) -> bool {
    match input.field_str("query"@) {
        None => r == Err::<Seq<MatchView>, (u16, Seq<char>)>((400u16, "missing_field"@)),
        Some(q) => if !broll_query_valid(q) {
            r == Err::<Seq<MatchView>, (u16, Seq<char>)>((400u16, "invalid_broll_query"@))
        } else if !(1 <= broll_limit(input) <= 50) {
            r == Err::<Seq<MatchView>, (u16, Seq<char>)>((400u16, "invalid_broll_limit"@))
        } else if query_tokens(q).len() == 0 {
            r == Err::<Seq<MatchView>, (u16, Seq<char>)>((400u16, "invalid_broll_query"@))
        } else {
            match r {
                Ok(picked) => exists|p: Seq<int>|
                    ranked_selection(
                        picked,
                        broll_candidates(assets, search_index_spec(q), query_tokens(q)),
                        broll_limit(input),
                        p,
                    ),
                Err(_) => false,
            }
        },
    }
}

pub open spec fn search_outcome(r: Result<Vec<BrollSearchMatch>, ApiError>) -> Result<
    Seq<MatchView>,
    (u16, Seq<char>),
> {
    match r {
        Ok(v) => Ok(v@.map_values(|m: BrollSearchMatch| m@)),
        Err(e) => Err((e.status, e.code@)),
    }
}

fn distinct_words(ws: &Vec<Vec<char>>) -> (r: Vec<Vec<char>>)
    ensures
        char_views(r@) == distinct_seq(char_views(ws@)),
{
    let mut out: Vec<Vec<char>> = Vec::new();
    let mut i: usize = 0;
    while i < ws.len()
        invariant
            i <= ws.len(),
            char_views(out@) == distinct_seq(char_views(ws@).subrange(0, i as int)),
        decreases ws.len() - i,
    {
        let ghost vs = char_views(ws@);
        assert(vs.subrange(0, i + 1).drop_last() =~= vs.subrange(0, i as int));
        assert(vs.subrange(0, i + 1).last() == ws@[i as int]@);
        let mut seen = false;
        let mut j: usize = 0;
        while j < out.len()
            invariant
                j <= out.len(),
                i < ws.len(),
                seen == exists|k: int| 0 <= k < j && out@[k]@ == ws@[i as int]@,
            decreases out.len() - j,
        {
            if crate::text::seq_eq(out[j].as_slice(), ws[i].as_slice()) {
                seen = true;
            }
            j += 1;
        }
        proof {
            let ov = char_views(out@);
            if seen {
                let k = choose|k: int| 0 <= k < out.len() && out@[k]@ == ws@[i as int]@;
                assert(ov[k] == ws@[i as int]@);
            } else {
                assert forall|k: int| 0 <= k < ov.len() implies ov[k] != ws@[i as int]@ by {
                    assert(ov[k] == out@[k]@);
                }
            }
        }
        if !seen {
            let ghost prev = char_views(out@);
            out.push(ws[i].clone());
            assert(char_views(out@) =~= prev.push(ws@[i as int]@));
        }
        i += 1;
    }
    assert(char_views(ws@).subrange(0, ws.len() as int) =~= char_views(ws@));
    out
}

fn copy_match(m: &BrollSearchMatch) -> (r: BrollSearchMatch)
    ensures
        r@ == m@,
{
    let mut reasons: Vec<String> = Vec::new();
    let mut i: usize = 0;
    while i < m.match_reasons.len()
        invariant
            i <= m.match_reasons.len(),
            reasons.len() == i,
            forall|k: int| 0 <= k < i ==> (#[trigger] reasons@[k])@ == m.match_reasons@[k]@,
        decreases m.match_reasons.len() - i,
    {
        reasons.push(copy_string(m.match_reasons[i].as_str()));
        i += 1;
    }
    assert(string_views(reasons@) =~= string_views(m.match_reasons@));
    BrollSearchMatch {
        asset_id: copy_string(m.asset_id.as_str()),
        name: copy_string(m.name.as_str()),
        kind: copy_string(m.kind.as_str()),
        score: m.score,
        match_reasons: reasons,
        content_hash: copy_string(m.content_hash.as_str()),
    }
}

fn rank_before(
    cands: &Vec<BrollSearchMatch>,
    lowers: &Vec<Vec<char>>,
    ids: &Vec<Vec<char>>,
    a: usize,
    b: usize,
) -> (r: bool)
    requires
        a < cands.len(),
        b < cands.len(),
        lowers.len() == cands.len(),
        ids.len() == cands.len(),
        forall|k: int| 0 <= k < cands.len() ==> (#[trigger] lowers@[k])@ == str_lowercase(cands@[k].name@),
        forall|k: int| 0 <= k < cands.len() ==> (#[trigger] ids@[k])@ == cands@[k].asset_id@,
    ensures
        r == ranks_before(cands@[a as int]@, cands@[b as int]@),
{
    let x = cands[a].score;
    let y = cands[b].score;
    if x != y {
        x > y
    } else if lex_less(lowers[a].as_slice(), lowers[b].as_slice()) {
        true
    } else if crate::text::seq_eq(lowers[a].as_slice(), lowers[b].as_slice()) {
        lex_less(ids[a].as_slice(), ids[b].as_slice())
    } else {
        false
    }
}


fn query_token_list(query: &str) -> (r: (String, Vec<Vec<char>>))
    ensures
        r.0@ == search_index_spec(query@),
        char_views(r.1@) == query_tokens(query@),
{
    let query_index = search_index_text(query);
    let qi_chars = chars_of(query_index.as_str());
    let ws = split_words(qi_chars.as_slice());
    assert(char_views(ws@) =~= char_vec_views(ws@));
    let tokens = distinct_words(&ws);
    (query_index, tokens)
}

/// Ranks the project's managed images and videos against the `query` of a
/// search tool input and answers the best `limit` (default 12) of them.
///
/// The query must hold 1 to 500 printable UTF-8 bytes that are not all
/// whitespace and at least one letter or digit; the limit must lie in
/// `1..=50`. Results are ranked by score, then lower-cased name, then asset id.
pub fn search_broll(input: &JsonValue, assets: &Vec<BrollAsset>) -> (r: Result<
    Vec<BrollSearchMatch>,
    ApiError,
>)
    requires
        broll_query_fits(*input),
    ensures
        search_broll_answer(*input, assets@, search_outcome(r)),
{
    let query = match required_string(input, "query") {
        Ok(q) => q,
        Err(e) => {
            return Err(e);
        },
    };
    proof {
        reveal_strlit("invalid_broll_query");
        reveal_strlit("invalid_broll_limit");
        reveal_strlit("missing_field");
    }
    let qc = chars_of(query);
    let t = trim(qc.as_slice());
    if t.len() == 0 || query.as_bytes().len() > 500 || any_control(qc.as_slice()) {
        return Err(
            ApiError::bad_request(
                "invalid_broll_query",
                "query must contain 1 to 500 printable bytes",
            ),
        );
    }
    let limit: u64 = match input.get_u64("limit") {
        Some(n) => n,
        None => 12,
    };
    if limit < 1 || limit > 50 {
        return Err(ApiError::bad_request("invalid_broll_limit", "limit must be between 1 and 50"));
    }
    let (query_index, tokens) = query_token_list(query);
    if tokens.len() == 0 {
        return Err(
            ApiError::bad_request(
                "invalid_broll_query",
                "query must contain at least one letter or number",
            ),
        );
    }
    let ghost toks = char_views(tokens@);
    let ghost qi = query_index@;
    let mut cands: Vec<BrollSearchMatch> = Vec::new();
    let mut i: usize = 0;
    while i < assets.len()
        invariant
            i <= assets.len(),
            toks == char_views(tokens@),
            qi == query_index@,
            160 + 30 * tokens.len() <= u32::MAX,
            cands@.map_values(|m: BrollSearchMatch| m@) == broll_candidates(
                assets@.subrange(0, i as int),
                qi,
                toks,
            ),
        decreases assets.len() - i,
    {
        assert(assets@.subrange(0, i + 1).drop_last() =~= assets@.subrange(0, i as int));
        assert(assets@.subrange(0, i + 1).last() == assets@[i as int]);
        let a = &assets[i];
        let eligible = a.content_hash.is_some() && match a.kind {
            AssetKind::Image | AssetKind::Video => true,
            _ => false,
        };
        let ghost before = cands@.map_values(|m: BrollSearchMatch| m@);
        if eligible {
            match score_broll_asset(a, query_index.as_str(), &tokens) {
                Some(m) => {
                    cands.push(m);
                    assert(cands@.map_values(|m: BrollSearchMatch| m@) =~= before.push(
                        cands@[cands.len() - 1]@,
                    ));
                },
                None => {},
            }
        }
        i += 1;
    }
    assert(assets@.subrange(0, assets.len() as int) =~= assets@);
    let ghost cv = cands@.map_values(|m: BrollSearchMatch| m@);
    assert(cv == broll_candidates(assets@, qi, toks));
    let n = cands.len();
    let mut lowers: Vec<Vec<char>> = Vec::new();
    let mut ids: Vec<Vec<char>> = Vec::new();
    let mut taken: Vec<bool> = Vec::new();
    let mut k: usize = 0;
    while k < n
        invariant
            k <= n,
            n == cands.len(),
            lowers.len() == k,
            ids.len() == k,
            taken.len() == k,
            forall|j: int| 0 <= j < k ==> (#[trigger] lowers@[j])@ == str_lowercase(cands@[j].name@),
            forall|j: int| 0 <= j < k ==> (#[trigger] ids@[j])@ == cands@[j].asset_id@,
            forall|j: int| 0 <= j < k ==> !(#[trigger] taken@[j]),
        decreases n - k,
    {
        let lower = lowercase_string(cands[k].name.as_str());
        lowers.push(chars_of(lower.as_str()));
        ids.push(chars_of(cands[k].asset_id.as_str()));
        taken.push(false);
        k += 1;
    }
    let mut order: Vec<usize> = Vec::new();
    loop
        invariant
            n == cands.len(),
            lowers.len() == n,
            ids.len() == n,
            taken.len() == n,
            cv == cands@.map_values(|m: BrollSearchMatch| m@),
            forall|j: int| 0 <= j < n ==> (#[trigger] lowers@[j])@ == str_lowercase(cands@[j].name@),
            forall|j: int| 0 <= j < n ==> (#[trigger] ids@[j])@ == cands@[j].asset_id@,
            1 <= limit <= 50,
            order.len() <= limit,
            forall|i: int| 0 <= i < order.len() ==> #[trigger] order@[i] < n,
            forall|i: int, j: int| 0 <= i < j < order.len() ==> order@[i] != order@[j],
            forall|j: int| 0 <= j < n ==> (#[trigger] taken@[j] <==> order@.contains(j as usize)),
            forall|i: int, j: int|
                0 <= i < j < order.len() ==> !ranks_before(
                    #[trigger] cv[order@[j] as int],
                    #[trigger] cv[order@[i] as int],
                ),
            forall|j: int, i: int|
                0 <= j < n && !taken@[j] && 0 <= i < order.len() ==> !ranks_before(
                    #[trigger] cv[j],
                    #[trigger] cv[order@[i] as int],
                ),
        ensures
            order.len() < limit ==> forall|j: int| 0 <= j < n ==> #[trigger] taken@[j],
        decreases limit - order.len(),
    {
        if order.len() as u64 >= limit {
            break;
        }
        let mut best: usize = n;
        let mut k: usize = 0;
        while k < n
            invariant
                k <= n,
                n == cands.len(),
                lowers.len() == n,
                ids.len() == n,
                taken.len() == n,
                cv == cands@.map_values(|m: BrollSearchMatch| m@),
                forall|j: int| 0 <= j < n ==> (#[trigger] lowers@[j])@ == str_lowercase(cands@[j].name@),
                forall|j: int| 0 <= j < n ==> (#[trigger] ids@[j])@ == cands@[j].asset_id@,
                best == n || (best < n && !taken@[best as int]),
                best < n ==> forall|j: int|
                    0 <= j < k && !taken@[j] ==> !ranks_before(#[trigger] cv[j], cv[best as int]),
                best == n ==> forall|j: int| 0 <= j < k ==> #[trigger] taken@[j],
            decreases n - k,
        {
            if !taken[k] {
                if best == n || rank_before(&cands, &lowers, &ids, k, best) {
                    proof {
                        lemma_ranks_before_irreflexive(cv[k as int]);
                        if best != n {
                            assert forall|j: int|
                                0 <= j < k && !taken@[j] implies !ranks_before(
                                #[trigger] cv[j],
                                cv[k as int],
                            ) by {
                                if ranks_before(cv[j], cv[k as int]) {
                                    lemma_ranks_before_transitive(
                                        cv[j],
                                        cv[k as int],
                                        cv[best as int],
                                    );
                                }
                            }
                        }
                    }
                    best = k;
                }
            }
            k += 1;
        }
        if best == n {
            break;
        }
        proof {
            assert(!order@.contains(best));
        }
        let ghost prev_order = order@;
        let ghost prev_taken = taken@;
        taken.set(best, true);
        order.push(best);
        proof {
            assert forall|j: int| 0 <= j < n implies (#[trigger] taken@[j] <==> order@.contains(
                j as usize,
            )) by {
                if j != best {
                    assert(taken@[j] == prev_taken[j]);
                    if order@.contains(j as usize) {
                        let i = choose|i: int| 0 <= i < order.len() && order@[i] == j as usize;
                        assert(i < order.len() - 1);
                        assert(prev_order[i] == j as usize);
                        assert(prev_order.contains(j as usize));
                        assert(prev_taken[j]);
                    }
                    if prev_taken[j] {
                        assert(prev_order.contains(j as usize));
                        let i = choose|i: int| 0 <= i < prev_order.len() && prev_order[i] == j as usize;
                        assert(order@[i] == j as usize);
                        assert(order@.contains(j as usize));
                    }
                } else {
                    assert(order@[order.len() - 1] == best);
                }
            }
        }
    }
    let mut out: Vec<BrollSearchMatch> = Vec::new();
    let mut i: usize = 0;
    while i < order.len()
        invariant
            i <= order.len(),
            n == cands.len(),
            out.len() == i,
            forall|j: int| 0 <= j < order.len() ==> #[trigger] order@[j] < n,
            forall|j: int| 0 <= j < i ==> (#[trigger] out@[j])@ == cands@[order@[j] as int]@,
        decreases order.len() - i,
    {
        out.push(copy_match(&cands[order[i]]));
        i += 1;
    }
    proof {
        let picked = out@.map_values(|m: BrollSearchMatch| m@);
        let p = order@.map_values(|x: usize| x as int);
        assert forall|j: int| 0 <= j < picked.len() implies picked[j] == cv[p[j]] by {}
        assert forall|j: int| 0 <= j < n && !p.contains(j) implies !taken@[j] by {
            if taken@[j] {
                let i = choose|i: int| 0 <= i < order.len() && order@[i] == j as usize;
                assert(p[i] == j);
            }
        }
        assert forall|j: int| 0 <= j < n && order.len() < limit implies p.contains(j) by {
            assert(taken@[j]);
            let i = choose|i: int| 0 <= i < order.len() && order@[i] == j as usize;
            assert(p[i] == j);
        }
        assert(ranked_selection(picked, cv, limit as int, p));
        assert(input.field_str("query"@) == Some(query@));
        assert(broll_query_valid(query@));
        assert(broll_limit(*input) == limit);
        assert(broll_candidates(assets@, search_index_spec(query@), query_tokens(query@)) == cv);
        assert(search_outcome(Ok::<Vec<BrollSearchMatch>, ApiError>(out)) == Ok::<Seq<MatchView>, (u16, Seq<char>)>(picked));
        let ghost rr = Ok::<Seq<MatchView>, (u16, Seq<char>)>(picked);
        assert(rr matches Ok(pk) && pk == picked);
        assert(!broll_query_valid(query@) == false);
        assert(!(1 <= broll_limit(*input) <= 50) == false);
        assert(match rr {
                Ok(pk) => exists|p: Seq<int>|
                    ranked_selection(
                        pk,
                        broll_candidates(assets@, search_index_spec(query@), query_tokens(query@)),
                        broll_limit(*input),
                        p,
                    ),
                Err(_) => false,
            });
        assert(search_broll_answer(*input, assets@, rr));
    }
    Ok(out)
}

/// Runs the B-roll search when the query's distinct tokens are few enough
/// for scores to fit in `u32`; `None` when they are not.
pub fn try_search_broll(input: &JsonValue, assets: &Vec<BrollAsset>) -> (r: Option<
    Result<Vec<BrollSearchMatch>, ApiError>,
>)
    ensures
        r is None <==> !broll_query_fits(*input),
        r matches Some(x) ==> search_broll_answer(*input, assets@, search_outcome(x)),
{
    let fits = match input.get_str("query") {
        None => true,
        Some(q) => {
            let (_, tokens) = query_token_list(q);
            tokens.len() <= 143165571
        },
    };
    if fits {
        Some(search_broll(input, assets))
    } else {
        None
    }
}


/// Which edge of the anchor word a placement follows.
#[derive(Debug, Clone, Copy, PartialEq, Eq, Structural)]
pub enum AnchorEdge {
    Start,
    End,
}

/// Which way a placement moves when its anchor word moves.
#[derive(Debug, Clone, Copy, PartialEq, Eq, Structural)]
pub enum AnchorBias {
    Before,
    After,
    Nearest,
}

/// A B-roll placement anchored to a transcript word.
#[derive(Debug)]
pub struct BrollAnchor {
    pub transcript_id: String,
    pub word_id: String,
    pub edge: AnchorEdge,
    pub bias: AnchorBias,
    /// The anchor's position now: the word's start or end tick.
    pub fallback_ticks: i64,
}

pub open spec fn edge_spec(v: Option<Seq<char>>) -> Option<AnchorEdge> {
    match v {
        None => Some(AnchorEdge::Start),
        Some(e) => if e == "start"@ {
            Some(AnchorEdge::Start)
        } else if e == "end"@ {
            Some(AnchorEdge::End)
        } else {
            None
        },
    }
}

pub open spec fn bias_spec(v: Option<Seq<char>>) -> Option<AnchorBias> {
    match v {
        None => Some(AnchorBias::Nearest),
        Some(b) => if b == "before"@ {
            Some(AnchorBias::Before)
        } else if b == "after"@ {
            Some(AnchorBias::After)
        } else if b == "nearest"@ {
            Some(AnchorBias::Nearest)
        } else {
            None
        },
    }
}

/// The anchor a B-roll request names with `transcriptId` and `wordId` (both
/// or neither), `edge` (`start` by default or `end`) and `bias` (`nearest`
/// by default, `before` or `after`); `ranges` holds the timeline ranges of
/// the transcript's active words.
pub fn broll_anchor_from_input(input: &JsonValue, ranges: &Vec<crate::captions::WordRange>) -> (r:
    Result<Option<BrollAnchor>, ApiError>)
    ensures
        match (input.field_str("transcriptId"@), input.field_str("wordId"@)) {
            (Some(t), Some(w)) => match crate::captions::range_of(ranges@, w) {
                None => r matches Err(e) && e.status == 400 && e.code@ == "inactive_broll_anchor"@,
                Some((start, end)) => match edge_spec(input.field_str("edge"@)) {
                    None => r matches Err(e) && e.status == 400 && e.code@
                        == "invalid_broll_anchor_edge"@,
                    Some(edge) => match bias_spec(input.field_str("bias"@)) {
                        None => r matches Err(e) && e.status == 400 && e.code@
                            == "invalid_broll_anchor_bias"@,
                        Some(bias) => r matches Ok(Some(a)) && a.transcript_id@ == t && a.word_id@
                            == w && a.edge == edge && a.bias == bias && a.fallback_ticks == (
                        if edge == AnchorEdge::Start {
                            start
                        } else {
                            end
                        }),
                    },
                },
            },
            (None, None) => r matches Ok(None),
            _ => r matches Err(e) && e.status == 400 && e.code@ == "incomplete_broll_anchor"@,
        },
{
    proof {
        reveal_strlit("start");
        reveal_strlit("end");
        reveal_strlit("before");
        reveal_strlit("after");
        reveal_strlit("nearest");
    }
    let transcript_id = input.get_str("transcriptId");
    let word_id = input.get_str("wordId");
    let (t, w) = match (transcript_id, word_id) {
        (Some(t), Some(w)) => (t, w),
        (None, None) => {
            return Ok(None);
        },
        _ => {
            return Err(
                ApiError::bad_request(
                    "incomplete_broll_anchor",
                    "transcriptId and wordId must be provided together",
                ),
            );
        },
    };
    let (start, end) = match crate::captions::range_index(ranges, w) {
        Some(i) => (ranges[i].start_ticks, ranges[i].end_ticks),
        None => {
            return Err(
                ApiError::bad_request(
                    "inactive_broll_anchor",
                    "wordId must identify an active word in the current StorySequence",
                ),
            );
        },
    };
    let edge = match input.get_str("edge") {
        None => AnchorEdge::Start,
        Some(e) => {
            if crate::text::str_eq(e, "start") {
                AnchorEdge::Start
            } else if crate::text::str_eq(e, "end") {
                AnchorEdge::End
            } else {
                return Err(
                    ApiError::bad_request("invalid_broll_anchor_edge", "edge must be start or end"),
                );
            }
        },
    };
    let bias = match input.get_str("bias") {
        None => AnchorBias::Nearest,
        Some(b) => {
            if crate::text::str_eq(b, "before") {
                AnchorBias::Before
            } else if crate::text::str_eq(b, "after") {
                AnchorBias::After
            } else if crate::text::str_eq(b, "nearest") {
                AnchorBias::Nearest
            } else {
                return Err(
                    ApiError::bad_request(
                        "invalid_broll_anchor_bias",
                        "bias must be before, after, or nearest",
                    ),
                );
            }
        },
    };
    let fallback_ticks = match edge {
        AnchorEdge::Start => start,
        AnchorEdge::End => end,
    };
    Ok(
        Some(
            BrollAnchor {
                transcript_id: copy_string(t),
                word_id: copy_string(w),
                edge,
                bias,
                fallback_ticks,
            },
        ),
    )
}

/// What a b-roll search recommends.
#[derive(Debug, Clone, Copy, PartialEq, Eq, Structural)]
pub enum BrollRecommendation {
    /// Use one of the local matches.
    UseLocal,
    /// Generate new media: nothing local matched.
    Generate,
}

impl BrollRecommendation {
    /// The wire name: `useLocal` or `generate`.
    pub fn as_str(&self) -> (r: &'static str)
        ensures
            r@ == match self {
                BrollRecommendation::UseLocal => "useLocal"@,
                BrollRecommendation::Generate => "generate"@,
            },
    {
        match self {
            BrollRecommendation::UseLocal => "useLocal",
            BrollRecommendation::Generate => "generate",
        }
    }
}

/// The recommendation of a b-roll search: generate exactly when there is
/// no local match.
pub fn broll_recommendation(matches: &Vec<BrollSearchMatch>) -> (r: BrollRecommendation)
    ensures
        (r == BrollRecommendation::Generate) <==> matches.len() == 0,
{
    if matches.len() == 0 {
        BrollRecommendation::Generate
    } else {
        BrollRecommendation::UseLocal
    }
}

/// The media kinds a provider can generate as b-roll, one per adapter, in
/// adapter order: `image` for image generation, `video` for video
/// generation. A provider with none is not offered as a fallback.
pub open spec fn fallback_kinds_spec(caps: Seq<crate::agent::CapabilityKind>) -> Seq<Seq<char>>
    decreases caps.len(),
{
    if caps.len() == 0 {
        Seq::empty()
    } else {
        fallback_kinds_spec(caps.drop_last()) + match caps.last() {
            crate::agent::CapabilityKind::ImageGeneration => seq!["image"@],
            crate::agent::CapabilityKind::VideoGeneration => seq!["video"@],
            _ => Seq::empty(),
        }
    }
}

/// The b-roll media kinds of a provider (see `fallback_kinds_spec`).
pub fn fallback_kinds(caps: &Vec<crate::agent::CapabilityKind>) -> (r: Vec<&'static str>)
    ensures
        r@.map_values(|k: &str| k@) == fallback_kinds_spec(caps@),
{
    let mut out: Vec<&'static str> = Vec::new();
    let mut i: usize = 0;
    while i < caps.len()
        invariant
            i <= caps.len(),
            out@.map_values(|k: &str| k@) == fallback_kinds_spec(caps@.subrange(0, i as int)),
        decreases caps.len() - i,
    {
        assert(caps@.subrange(0, i + 1).drop_last() =~= caps@.subrange(0, i as int));
        let ghost before = out@;
        match caps[i] {
            crate::agent::CapabilityKind::ImageGeneration => {
                out.push("image");
                assert(out@.map_values(|k: &str| k@) =~= before.map_values(|k: &str| k@).push("image"@));
            },
            crate::agent::CapabilityKind::VideoGeneration => {
                out.push("video");
                assert(out@.map_values(|k: &str| k@) =~= before.map_values(|k: &str| k@).push("video"@));
            },
            _ => {},
        }
        i += 1;
    }
    assert(caps@.subrange(0, caps.len() as int) =~= caps@);
    out
}

} // verus!


verus! {

/// A query that occurs anywhere inside an asset's normalized name, without
/// being the whole name, is a name phrase: it earns 90 points and is the
/// first reason given; on the phrase alone, such an asset ranks ahead of
/// any asset whose name does not hold the query.
pub proof fn lemma_query_inside_name_is_a_name_phrase(
    a: BrollAsset,
    other: BrollAsset,
    query: Seq<char>,
    tokens: Seq<Seq<char>>,
    at: int,
)
    requires
        query.len() > 0,
        search_index_spec(a.name@) != query,
        0 <= at && at + query.len() <= search_index_spec(a.name@).len(),
        search_index_spec(a.name@).subrange(at, at + query.len()) == query,
        !contains_seq(search_index_spec(other.name@), query),
    ensures
        phrase_points(search_index_spec(a.name@), metadata_text(a), query) == 90,
        broll_score(a, query, tokens) >= 90,
        broll_reasons(a, query, tokens).len() > 0 && broll_reasons(a, query, tokens)[0] == "namePhrase"@,
        tokens.len() == 0 ==> broll_score(a, query, tokens) == 90 && broll_score(other, query, tokens) < 90,
{
    assert(crate::text::occurs_at(search_index_spec(a.name@), query, at));
    if search_index_spec(other.name@) == query {
        assert(crate::text::occurs_at(search_index_spec(other.name@), query, 0)) by {
            assert(query.subrange(0, query.len() as int) =~= query);
        }
    }
}

} // verus!

verus! {

/// A query equal to the asset's whole normalized name is an exact name:
/// 160 points and the first reason given.
pub proof fn lemma_exact_name(a: BrollAsset, query: Seq<char>, tokens: Seq<Seq<char>>)
    requires
        search_index_spec(a.name@) == query,
    ensures
        phrase_points(search_index_spec(a.name@), metadata_text(a), query) == 160,
        broll_score(a, query, tokens) >= 160,
        broll_reasons(a, query, tokens).len() > 0 && broll_reasons(a, query, tokens)[0] == "exactName"@,
{
}

/// A query found only in the asset's metadata, not in its name, is a
/// metadata phrase: 50 points and the first reason given.
pub proof fn lemma_metadata_phrase(a: BrollAsset, query: Seq<char>, tokens: Seq<Seq<char>>, at: int)
    requires
        query.len() > 0,
        !contains_seq(search_index_spec(a.name@), query),
        0 <= at && at + query.len() <= metadata_text(a).len(),
        metadata_text(a).subrange(at, at + query.len()) == query,
    ensures
        phrase_points(search_index_spec(a.name@), metadata_text(a), query) == 50,
        broll_reasons(a, query, tokens).len() > 0 && broll_reasons(a, query, tokens)[0] == "metadataPhrase"@,
{
    assert(crate::text::occurs_at(metadata_text(a), query, at));
    if search_index_spec(a.name@) == query {
        assert(crate::text::occurs_at(search_index_spec(a.name@), query, 0)) by {
            assert(query.subrange(0, query.len() as int) =~= query);
        }
    }
}

/// Each further query token adds to the score: 30 points when the
/// asset's normalized name holds it, else 10 when its metadata does, else
/// nothing.
pub proof fn lemma_token_points(a: BrollAsset, query: Seq<char>, tokens: Seq<Seq<char>>, token: Seq<char>)
    ensures
        broll_score(a, query, tokens.push(token)) == broll_score(a, query, tokens) + if contains_seq(
            search_index_spec(a.name@),
            token,
        ) {
            30int
        } else if contains_seq(metadata_text(a), token) {
            10int
        } else {
            0int
        },
{
    assert(tokens.push(token).drop_last() =~= tokens);
    assert(tokens.push(token).last() == token);
}

} // verus!
