//! A request, and the parameters that it puts on each of Deepgram's endpoints.

use vstd::prelude::*;

use crate::model::{
    self, batch_model, deepgram_language, model_accepts_keyterms, requested_model,
};
use crate::text::{self, contains, decimal_text, same_text};

verus! {

/// Samples per second of the audio that is sent.
pub const SAMPLE_RATE: u32 = 16000;

/// How many keyterms a request carries at most. Deepgram caps keyterm prompting; this is
/// well under its limit.
pub const MAX_KEYTERMS: usize = 100;

/// What to transcribe with.
#[derive(Debug, Clone, PartialEq, Eq)]
pub struct CloudSttRequest {
    pub api_key: String,
    /// The name of a Deepgram model, such as `nova-3`.
    pub model: String,
    /// The language as the user intends it ("auto", "en", "fr", ...). "auto" becomes
    /// Deepgram's `multi`.
    pub language: String,
    /// Custom words, passed as `keyterm` so that the model is biased toward them while it
    /// decodes.
    pub keyterms: Vec<String>,
}

/// The terms of a list that have words in them, trimmed.
pub open spec fn non_blank(terms: Seq<Seq<char>>) -> Seq<Seq<char>>
    decreases terms.len(),
{
    if terms.len() == 0 {
        Seq::empty()
    } else {
        let front = non_blank(terms.drop_last());
        let term = text::trimmed(terms.last());
        if term.len() > 0 {
            front.push(term)
        } else {
            front
        }
    }
}

/// The terms of a list that are sent: those with words in them, up to the limit.
pub open spec fn sent_terms(terms: Seq<Seq<char>>) -> Seq<Seq<char>> {
    let all = non_blank(terms);
    if all.len() > MAX_KEYTERMS {
        all.take(MAX_KEYTERMS as int)
    } else {
        all
    }
}

/// The parameters for the terms that are sent.
pub open spec fn keyterm_params(terms: Seq<Seq<char>>) -> Seq<(Seq<char>, Seq<char>)> {
    sent_terms(terms).map_values(|term: Seq<char>| ("keyterm"@, term))
}

/// The parameters that both endpoints of `/v1` take for a model and a language setting.
pub open spec fn v1_params(model: Seq<char>, language: Seq<char>) -> Seq<(Seq<char>, Seq<char>)> {
    seq![
        ("model"@, model),
        ("encoding"@, "linear16"@),
        ("sample_rate"@, text::decimal(SAMPLE_RATE as nat)),
        ("channels"@, "1"@),
        ("language"@, model::language_code(language)),
        ("smart_format"@, "true"@),
        ("punctuate"@, "true"@),
    ]
}

/// The parameters that Flux takes for every model.
pub open spec fn flux_base_params(model: Seq<char>) -> Seq<(Seq<char>, Seq<char>)> {
    seq![
        ("model"@, model),
        ("encoding"@, "linear16"@),
        ("sample_rate"@, text::decimal(SAMPLE_RATE as nat)),
        ("eot_threshold"@, "0.9"@),
        ("eot_timeout_ms"@, "60000"@),
        ("numerals"@, "true"@),
    ]
}

/// The hint at the language that a Flux model takes: none but the multilingual one does,
/// and it needs none to detect the language by itself.
pub open spec fn hint_params(model: Seq<char>, language: Seq<char>) -> Seq<
    (Seq<char>, Seq<char>),
> {
    if text::occurs_in("multi"@, model) && model::language_code(language) != "multi"@ {
        seq![("language_hint"@, model::language_code(language))]
    } else {
        Seq::empty()
    }
}

/// The keyterms of a request, for a model that takes them.
pub open spec fn keyterm_params_for(model: Seq<char>, terms: Seq<Seq<char>>) -> Seq<
    (Seq<char>, Seq<char>),
> {
    if model::accepts_keyterms(model) {
        keyterm_params(terms)
    } else {
        Seq::empty()
    }
}

impl CloudSttRequest {
    /// The keyterms as texts.
    pub open spec fn terms(self) -> Seq<Seq<char>> {
        text::texts(self.keyterms@)
    }

    /// The model that the batch endpoint is asked for.
    pub open spec fn batch_model(self) -> Seq<char> {
        model::batch_name(model::requested(self.model@))
    }

    /// The parameters on the batch endpoint.
    pub open spec fn batch_params(self) -> Seq<(Seq<char>, Seq<char>)> {
        v1_params(self.batch_model(), self.language@) + keyterm_params_for(
            self.batch_model(),
            self.terms(),
        )
    }

    /// The parameters on the `/v1` stream.
    pub open spec fn live_params(self) -> Seq<(Seq<char>, Seq<char>)> {
        let model = model::requested(self.model@);
        v1_params(model, self.language@) + seq![("interim_results"@, "true"@)]
            + keyterm_params_for(model, self.terms())
    }

    /// The parameters on the Flux stream for a model.
    pub open spec fn flux_params(self, model: Seq<char>) -> Seq<(Seq<char>, Seq<char>)> {
        flux_base_params(model) + hint_params(model, self.language@) + keyterm_params(
            self.terms(),
        )
    }

    /// Whether a stream for this request speaks Flux.
    pub open spec fn streams_flux(self) -> bool {
        model::is_flux(model::requested(self.model@))
    }
}

/// What a list of parameters says.
pub open spec fn param_texts(params: Seq<(String, String)>) -> Seq<(Seq<char>, Seq<char>)> {
    params.map_values(|param: (String, String)| (param.0@, param.1@))
}

/// Puts a parameter behind those of a list.
fn push_param(params: &mut Vec<(String, String)>, name: &str, value: &str)
    ensures
        param_texts(final(params)@) == param_texts(old(params)@).push((name@, value@)),
{
    params.push((name.to_string(), value.to_string()));
    assert(param_texts(params@) =~= param_texts(old(params)@).push((name@, value@)));
}

/// The terms of the first part of a list come first.
proof fn lemma_non_blank_prefix(terms: Seq<Seq<char>>, n: int)
    requires
        0 <= n <= terms.len(),
    ensures
        non_blank(terms.take(n)).is_prefix_of(non_blank(terms)),
    decreases terms.len(),
{
    if n < terms.len() {
        let front = terms.drop_last();
        assert(front.take(n) =~= terms.take(n));
        lemma_non_blank_prefix(front, n);
    } else {
        assert(terms.take(n) =~= terms);
    }
}

/// Puts the keyterms behind the parameters of a list.
fn push_keyterms(params: &mut Vec<(String, String)>, terms: &Vec<String>)
    ensures
        param_texts(final(params)@) == param_texts(old(params)@) + keyterm_params(
            text::texts(terms@),
        ),
{
    let ghost before = param_texts(params@);
    let ghost all = text::texts(terms@);
    let ghost as_param = |term: Seq<char>| ("keyterm"@, term);
    let mut sent: usize = 0;
    let mut i: usize = 0;
    assert(param_texts(params@) =~= before + non_blank(all.take(0)).map_values(as_param));
    while i < terms.len() && sent < MAX_KEYTERMS
        invariant
            all == text::texts(terms@),
            i <= terms.len(),
            sent == non_blank(all.take(i as int)).len(),
            sent <= MAX_KEYTERMS,
            as_param == (|term: Seq<char>| ("keyterm"@, term)),
            param_texts(params@) == before + non_blank(all.take(i as int)).map_values(as_param),
        decreases terms.len() - i,
    {
        let term = terms[i].as_str().trim();
        assert(all.take(i + 1).drop_last() =~= all.take(i as int));
        if !term.is_empty() {
            push_param(params, "keyterm", term);
            sent += 1;
            assert(param_texts(params@) =~= before + non_blank(all.take(i + 1)).map_values(
                as_param,
            ));
        }
        i += 1;
    }
    proof {
        lemma_non_blank_prefix(all, i as int);
        let here = non_blank(all.take(i as int));
        if i == terms.len() {
            assert(all.take(i as int) =~= all);
        } else {
            assert(non_blank(all).take(MAX_KEYTERMS as int) =~= here);
        }
        assert(sent_terms(all) =~= here);
    }
}

/// The parameters that both endpoints of `/v1` take.
fn v1_query(model: &str, language: &str) -> (r: Vec<(String, String)>)
    ensures
        param_texts(r@) == v1_params(model@, language@),
{
    let mut params: Vec<(String, String)> = Vec::new();
    push_param(&mut params, "model", model);
    push_param(&mut params, "encoding", "linear16");
    push_param(&mut params, "sample_rate", decimal_text(SAMPLE_RATE as u64).as_str());
    push_param(&mut params, "channels", "1");
    push_param(&mut params, "language", deepgram_language(language).as_str());
    push_param(&mut params, "smart_format", "true");
    push_param(&mut params, "punctuate", "true");
    assert(param_texts(params@) =~= v1_params(model@, language@));
    params
}

/// The parameters that a request puts on the batch endpoint.
pub fn batch_query(req: &CloudSttRequest) -> (r: Vec<(String, String)>)
    ensures
        param_texts(r@) == req.batch_params(),
{
    let model = batch_model(requested_model(req.model.as_str()));
    let mut params = v1_query(model, req.language.as_str());
    if model_accepts_keyterms(model) {
        push_keyterms(&mut params, &req.keyterms);
    }
    assert(param_texts(params@) =~= req.batch_params());
    params
}

/// The parameters that a request puts on the `/v1` stream.
pub fn live_query(req: &CloudSttRequest) -> (r: Vec<(String, String)>)
    ensures
        param_texts(r@) == req.live_params(),
{
    let model = requested_model(req.model.as_str());
    let mut params = v1_query(model, req.language.as_str());
    // Interim results are what a live view shows; without them nothing appears until the
    // user stops speaking.
    push_param(&mut params, "interim_results", "true");
    if model_accepts_keyterms(model) {
        push_keyterms(&mut params, &req.keyterms);
    }
    assert(param_texts(params@) =~= req.live_params());
    params
}

/// The parameters that a request puts on the Flux stream for a model.
///
/// They are not those of `/v1`: Flux punctuates on its own, streams cumulative turns in
/// place of interim results, and takes end-of-turn thresholds. It does not write numbers
/// as digits unless `numerals` asks for it, which `/v1` did under `smart_format`.
///
/// The end of an utterance is the moment when the user releases the key, and not when
/// Deepgram guesses it. Both thresholds are therefore at their maximum, so that Flux will
/// not cut a turn short because the speaker paused to think.
pub fn flux_query(req: &CloudSttRequest, model: &str) -> (r: Vec<(String, String)>)
    ensures
        param_texts(r@) == req.flux_params(model@),
{
    let mut params: Vec<(String, String)> = Vec::new();
    push_param(&mut params, "model", model);
    push_param(&mut params, "encoding", "linear16");
    push_param(&mut params, "sample_rate", decimal_text(SAMPLE_RATE as u64).as_str());
    // Deepgram's own defaults are 0.7 and 5000.
    push_param(&mut params, "eot_threshold", "0.9");
    push_param(&mut params, "eot_timeout_ms", "60000");
    push_param(&mut params, "numerals", "true");
    assert(param_texts(params@) =~= flux_base_params(model@));

    // The multilingual variant takes hints; the English one takes no language at all and
    // answers one with an error.
    if contains(model, "multi") {
        let language = deepgram_language(req.language.as_str());
        if !same_text(language.as_str(), "multi") {
            push_param(&mut params, "language_hint", language.as_str());
        }
    }
    assert(param_texts(params@) =~= flux_base_params(model@) + hint_params(
        model@,
        req.language@,
    ));
    push_keyterms(&mut params, &req.keyterms);
    params
}

/// Whether a list has a parameter of that name.
pub open spec fn has_param(params: Seq<(Seq<char>, Seq<char>)>, name: Seq<char>) -> bool {
    exists|i: int| 0 <= i < params.len() && (#[trigger] params[i]).0 == name
}

/// How many parameters of a list have that name.
pub open spec fn count_params(params: Seq<(Seq<char>, Seq<char>)>, name: Seq<char>) -> nat
    decreases params.len(),
{
    if params.len() == 0 {
        0
    } else {
        count_params(params.drop_last(), name) + if params.last().0 == name {
            1nat
        } else {
            0
        }
    }
}

/// The names of the parameters are different from one another as far as it matters here.
proof fn lemma_names()
    ensures
        "keyterm"@.len() == 7,
        "model"@.len() == 5,
        "encoding"@.len() == 8,
        "sample_rate"@.len() == 11,
        "channels"@.len() == 8,
        "language"@.len() == 8,
        "smart_format"@.len() == 12,
        "punctuate"@.len() == 9,
        "interim_results"@.len() == 15,
        "eot_threshold"@.len() == 13,
        "eot_timeout_ms"@.len() == 14,
        "numerals"@.len() == 8,
        "language_hint"@.len() == 13,
        "channels"@ != "encoding"@,
        "channels"@ != "numerals"@,
        "channels"@ != "language"@,
        "language"@ != "encoding"@,
        "language"@ != "numerals"@,
        "language_hint"@ != "eot_threshold"@,
{
    reveal_strlit("keyterm");
    reveal_strlit("model");
    reveal_strlit("encoding");
    reveal_strlit("sample_rate");
    reveal_strlit("channels");
    reveal_strlit("language");
    reveal_strlit("smart_format");
    reveal_strlit("punctuate");
    reveal_strlit("interim_results");
    reveal_strlit("eot_threshold");
    reveal_strlit("eot_timeout_ms");
    reveal_strlit("numerals");
    reveal_strlit("language_hint");
    assert("channels"@[0] == 'c');
    assert("language"@[0] == 'l');
    assert("encoding"@[0] == 'e');
    assert("numerals"@[0] == 'n');
    assert("language_hint"@[0] == 'l');
    assert("eot_threshold"@[0] == 'e');
}

proof fn lemma_non_blank_terms(terms: Seq<Seq<char>>)
    ensures
        non_blank(terms).len() <= terms.len(),
        forall|i: int|
            0 <= i < non_blank(terms).len() ==> #[trigger] non_blank(terms)[i].len() > 0
                && text::is_trimmed(non_blank(terms)[i]),
    decreases terms.len(),
{
    if terms.len() > 0 {
        lemma_non_blank_terms(terms.drop_last());
        text::lemma_trimmed_is_trimmed(terms.last());
    }
}

/// However many custom words there are, a limited number of them is sent, and none that
/// is blank or has white space at its ends.
pub proof fn law_sent_terms_are_limited_and_clean(terms: Seq<Seq<char>>)
    ensures
        sent_terms(terms).len() <= MAX_KEYTERMS,
        sent_terms(terms).is_prefix_of(non_blank(terms)),
        sent_terms(terms).len() == MAX_KEYTERMS || sent_terms(terms) == non_blank(terms),
        forall|i: int|
            0 <= i < sent_terms(terms).len() ==> #[trigger] sent_terms(terms)[i].len() > 0
                && text::is_trimmed(sent_terms(terms)[i]),
{
    lemma_non_blank_terms(terms);
    assert forall|i: int| 0 <= i < sent_terms(terms).len() implies #[trigger] sent_terms(
        terms,
    )[i].len() > 0 && text::is_trimmed(sent_terms(terms)[i]) by {
        assert(sent_terms(terms)[i] == non_blank(terms)[i]);
    }
}

/// The parameters of `/v1` never get onto `/v2`, which answers them with an error.
pub proof fn law_flux_takes_no_v1_params(req: CloudSttRequest, model: Seq<char>)
    ensures
        !has_param(req.flux_params(model), "channels"@),
        !has_param(req.flux_params(model), "language"@),
        !has_param(req.flux_params(model), "smart_format"@),
        !has_param(req.flux_params(model), "punctuate"@),
        !has_param(req.flux_params(model), "interim_results"@),
{
    lemma_names();
    let params = req.flux_params(model);
    let base = flux_base_params(model);
    let hint = hint_params(model, req.language@);
    assert forall|i: int| 0 <= i < params.len() implies (#[trigger] params[i]).0 != "channels"@
        && params[i].0 != "language"@ && params[i].0 != "smart_format"@ && params[i].0
        != "punctuate"@ && params[i].0 != "interim_results"@ by {
        if i < base.len() {
            assert(params[i] == base[i]);
        } else if i < base.len() + hint.len() {
            assert(params[i] == hint[i - base.len()]);
        } else {
            assert(params[i] == keyterm_params(req.terms())[i - base.len() - hint.len()]);
        }
    }
}

/// A Flux model gets a hint at the language exactly where it is multilingual and the
/// user intends one language; otherwise the list says nothing of a language.
pub proof fn law_language_hint(req: CloudSttRequest, model: Seq<char>)
    ensures
        has_param(req.flux_params(model), "language_hint"@) <==> text::occurs_in("multi"@, model)
            && model::language_code(req.language@) != "multi"@,
        forall|i: int|
            0 <= i < req.flux_params(model).len() && (#[trigger] req.flux_params(model)[i]).0
                == "language_hint"@ ==> req.flux_params(model)[i].1 == model::language_code(
                req.language@,
            ),
{
    lemma_names();
    let params = req.flux_params(model);
    let base = flux_base_params(model);
    let hint = hint_params(model, req.language@);
    assert forall|i: int|
        0 <= i < params.len() && (#[trigger] params[i]).0 == "language_hint"@ implies i
        == base.len() && hint.len() == 1 && params[i] == hint[0] by {
        if i < base.len() {
            assert(params[i] == base[i]);
        } else if i >= base.len() + hint.len() {
            assert(params[i] == keyterm_params(req.terms())[i - base.len() - hint.len()]);
        }
    }
    if hint.len() == 1 {
        assert(params[base.len() as int] == hint[0]);
    }
}

/// A model that does not take keyterms is sent none, as it would answer one with an
/// error.
pub proof fn law_keyterms_only_where_taken(req: CloudSttRequest)
    ensures
        !model::accepts_keyterms(req.batch_model()) ==> !has_param(
            req.batch_params(),
            "keyterm"@,
        ),
        !model::accepts_keyterms(model::requested(req.model@)) ==> !has_param(
            req.live_params(),
            "keyterm"@,
        ),
{
    lemma_names();
}

/// The parameters named `keyterm` are the terms that are sent, one each.
pub proof fn law_one_param_per_sent_term(req: CloudSttRequest, model: Seq<char>)
    ensures
        count_params(req.flux_params(model), "keyterm"@) == sent_terms(req.terms()).len(),
        model::accepts_keyterms(req.batch_model()) ==> count_params(
            req.batch_params(),
            "keyterm"@,
        ) == sent_terms(req.terms()).len(),
        model::accepts_keyterms(model::requested(req.model@)) ==> count_params(
            req.live_params(),
            "keyterm"@,
        ) == sent_terms(req.terms()).len(),
{
    lemma_names();
    let terms = keyterm_params(req.terms());
    lemma_count_all(terms, "keyterm"@);
    let flux = flux_base_params(model) + hint_params(model, req.language@);
    lemma_count_none(flux, "keyterm"@);
    lemma_count_concat(flux, terms, "keyterm"@);
    let batch = v1_params(req.batch_model(), req.language@);
    lemma_count_none(batch, "keyterm"@);
    lemma_count_concat(batch, terms, "keyterm"@);
    let live = v1_params(model::requested(req.model@), req.language@) + seq![
        ("interim_results"@, "true"@),
    ];
    lemma_count_none(live, "keyterm"@);
    lemma_count_concat(live, terms, "keyterm"@);
}

proof fn lemma_count_none(params: Seq<(Seq<char>, Seq<char>)>, name: Seq<char>)
    requires
        !has_param(params, name),
    ensures
        count_params(params, name) == 0,
    decreases params.len(),
{
    if params.len() > 0 {
        let front = params.drop_last();
        assert(params[params.len() - 1].0 != name);
        assert forall|i: int| 0 <= i < front.len() implies (#[trigger] front[i]).0 != name by {
            assert(params[i].0 != name);
        }
        lemma_count_none(front, name);
    }
}

proof fn lemma_count_all(params: Seq<(Seq<char>, Seq<char>)>, name: Seq<char>)
    requires
        forall|i: int| 0 <= i < params.len() ==> (#[trigger] params[i]).0 == name,
    ensures
        count_params(params, name) == params.len(),
    decreases params.len(),
{
    if params.len() > 0 {
        assert(params[params.len() - 1].0 == name);
        lemma_count_all(params.drop_last(), name);
    }
}

proof fn lemma_count_concat(
    a: Seq<(Seq<char>, Seq<char>)>,
    b: Seq<(Seq<char>, Seq<char>)>,
    name: Seq<char>,
)
    ensures
        count_params(a + b, name) == count_params(a, name) + count_params(b, name),
    decreases b.len(),
{
    if b.len() == 0 {
        assert(a + b =~= a);
    } else {
        assert((a + b).drop_last() =~= a + b.drop_last());
        lemma_count_concat(a, b.drop_last(), name);
    }
}

/// A batch request names a model that takes batch requests, and asks for no interim
/// results; a `/v1` stream always asks for them.
pub proof fn law_each_endpoint_gets_its_own(req: CloudSttRequest)
    ensures
        req.batch_params()[0] == ("model"@, req.batch_model()),
        !model::is_flux(req.batch_model()),
        !has_param(req.batch_params(), "interim_results"@),
        has_param(req.live_params(), "interim_results"@),
{
    lemma_names();
    model::law_batch_model_is_never_flux(model::requested(req.model@));
    let batch = req.batch_params();
    let base = v1_params(req.batch_model(), req.language@);
    assert forall|i: int| 0 <= i < batch.len() implies (#[trigger] batch[i]).0
        != "interim_results"@ by {
        if i < base.len() {
            assert(batch[i] == base[i]);
        }
    }
    assert(req.live_params()[7] == ("interim_results"@, "true"@));
}

/// Whether these are the places, in order, of the first hundred terms of a list that have
/// words in them, or of all of them where there are fewer.
pub open spec fn are_first_with_words(places: Seq<int>, terms: Seq<String>) -> bool {
    &&& places.len() <= 100
    &&& forall|k: int|
        0 <= k < places.len() ==> 0 <= #[trigger] places[k] < terms.len() && text::trimmed(
            terms[places[k]]@,
        ).len() > 0
    &&& forall|k: int, l: int| 0 <= k < l < places.len() ==> places[k] < places[l]
    &&& forall|i: int|
        0 <= i < terms.len() && text::trimmed((#[trigger] terms[i])@).len() > 0
            ==> places.contains(i) || (places.len() == 100 && places[99] < i)
}

/// The parameters for the terms at these places of a list.
pub open spec fn keyterms_at(places: Seq<int>, terms: Seq<String>) -> Seq<(Seq<char>, Seq<char>)> {
    Seq::new(places.len(), |k: int| ("keyterm"@, text::trimmed(terms[places[k]]@)))
}

/// The terms with words in them are the terms of the list at some places, in order, and at
/// all places that have any.
proof fn lemma_non_blank_places(terms: Seq<Seq<char>>) -> (places: Seq<int>)
    ensures
        places.len() == non_blank(terms).len(),
        forall|k: int|
            0 <= k < places.len() ==> 0 <= #[trigger] places[k] < terms.len() && text::trimmed(
                terms[places[k]],
            ).len() > 0 && non_blank(terms)[k] == text::trimmed(terms[places[k]]),
        forall|k: int, l: int| 0 <= k < l < places.len() ==> places[k] < places[l],
        forall|i: int|
            0 <= i < terms.len() && text::trimmed(#[trigger] terms[i]).len() > 0
                ==> places.contains(i),
    decreases terms.len(),
{
    if terms.len() == 0 {
        Seq::empty()
    } else {
        let front = terms.drop_last();
        let before = lemma_non_blank_places(front);
        let last = terms.len() - 1;
        assert forall|k: int| 0 <= k < before.len() implies 0 <= #[trigger] before[k] < last
            && terms[before[k]] == front[before[k]] by {}
        if text::trimmed(terms[last]).len() > 0 {
            let places = before.push(last);
            assert forall|i: int|
                0 <= i < terms.len() && text::trimmed(
                    #[trigger] terms[i],
                ).len() > 0 implies places.contains(i) by {
                if i < last {
                    assert(front[i] == terms[i]);
                    let k = choose|k: int| 0 <= k < before.len() && before[k] == i;
                    assert(places[k] == i);
                } else {
                    assert(places[before.len() as int] == i);
                }
            }
            places
        } else {
            assert forall|i: int|
                0 <= i < terms.len() && text::trimmed(
                    #[trigger] terms[i],
                ).len() > 0 implies before.contains(i) by {
                assert(front[i] == terms[i]);
            }
            before
        }
    }
}

proof fn lemma_keyterm_places(terms: Seq<String>) -> (places: Seq<int>)
    ensures
        are_first_with_words(places, terms),
        keyterm_params(text::texts(terms)) == keyterms_at(places, terms),
{
    let all = text::texts(terms);
    let every = lemma_non_blank_places(all);
    let places = if every.len() > 100 {
        every.take(100)
    } else {
        every
    };
    assert forall|i: int| 0 <= i < terms.len() implies (#[trigger] terms[i])@ == all[i] by {}
    assert forall|k: int| 0 <= k < places.len() implies 0 <= #[trigger] places[k] < terms.len()
        && text::trimmed(terms[places[k]]@).len() > 0 && sent_terms(all)[k] == text::trimmed(
        terms[places[k]]@,
    ) by {
        assert(places[k] == every[k]);
        assert(terms[places[k]]@ == all[places[k]]);
    }
    assert forall|k: int, l: int| 0 <= k < l < places.len() implies places[k] < places[l] by {
        assert(places[k] == every[k] && places[l] == every[l]);
    }
    assert forall|i: int|
        0 <= i < terms.len() && text::trimmed(
            (#[trigger] terms[i])@,
        ).len() > 0 implies places.contains(i) || (places.len() == 100 && places[99] < i) by {
        assert(text::trimmed(all[i]).len() > 0);
        let k = choose|k: int| 0 <= k < every.len() && every[k] == i;
        if k < 100 {
            assert(places[k] == i);
        } else {
            assert(every[99] < every[k]);
        }
    }
    assert(keyterm_params(all) =~= keyterms_at(places, terms));
    places
}

proof fn lemma_sample_rate()
    ensures
        text::decimal(SAMPLE_RATE as nat) == "16000"@,
{
    reveal_strlit("16000");
    reveal_with_fuel(text::decimal, 5);
    assert(text::decimal(16000) =~= "16000"@);
}

/// The parameters on the batch endpoint, read off the request: the model as it is named,
/// but `nova-3` for none and for Flux; the audio format; the language as it is named, but
/// `multi` for none and for "auto"; and each of the first hundred custom words that are not
/// blank, trimmed and in order, where the model takes them.
pub proof fn law_batch_parameters(req: CloudSttRequest) -> (places: Seq<int>)
    ensures
        ({
            let name = text::trimmed(req.model@);
            let model = if name.len() == 0 || "flux"@.is_prefix_of(name) {
                "nova-3"@
            } else {
                name
            };
            let language = text::trimmed(req.language@);
            &&& if "nova-3"@.is_prefix_of(model) {
                are_first_with_words(places, req.keyterms@)
            } else {
                places.len() == 0
            }
            &&& req.batch_params() == seq![
                ("model"@, model),
                ("encoding"@, "linear16"@),
                ("sample_rate"@, "16000"@),
                ("channels"@, "1"@),
                (
                    "language"@,
                    if language.len() == 0 || language == "auto"@ {
                        "multi"@
                    } else {
                        language
                    },
                ),
                ("smart_format"@, "true"@),
                ("punctuate"@, "true"@),
            ] + keyterms_at(places, req.keyterms@)
        }),
{
    lemma_sample_rate();
    model::lemma_default_models();
    text::lemma_trimmed_is_trimmed(req.model@);
    text::lemma_trimmed_keeps_trimmed(text::trimmed(req.model@));
    model::law_batch_model_is_never_flux(model::requested(req.model@));
    let places = lemma_keyterm_places(req.keyterms@);
    if model::accepts_keyterms(req.batch_model()) {
        assert(req.batch_params() =~= v1_params(req.batch_model(), req.language@) + keyterms_at(
            places,
            req.keyterms@,
        ));
        places
    } else {
        assert(req.batch_params() =~= v1_params(req.batch_model(), req.language@) + keyterms_at(
            Seq::empty(),
            req.keyterms@,
        ));
        Seq::empty()
    }
}

/// The parameters on the `/v1` stream, read off the request: those of the batch endpoint
/// for the model as it is named, and interim results.
pub proof fn law_live_parameters(req: CloudSttRequest) -> (places: Seq<int>)
    ensures
        ({
            let name = text::trimmed(req.model@);
            let model = if name.len() == 0 {
                "nova-3"@
            } else {
                name
            };
            let language = text::trimmed(req.language@);
            &&& if "nova-3"@.is_prefix_of(model) || "flux"@.is_prefix_of(model) {
                are_first_with_words(places, req.keyterms@)
            } else {
                places.len() == 0
            }
            &&& req.live_params() == seq![
                ("model"@, model),
                ("encoding"@, "linear16"@),
                ("sample_rate"@, "16000"@),
                ("channels"@, "1"@),
                (
                    "language"@,
                    if language.len() == 0 || language == "auto"@ {
                        "multi"@
                    } else {
                        language
                    },
                ),
                ("smart_format"@, "true"@),
                ("punctuate"@, "true"@),
                ("interim_results"@, "true"@),
            ] + keyterms_at(places, req.keyterms@)
        }),
{
    lemma_sample_rate();
    model::lemma_default_models();
    text::lemma_trimmed_is_trimmed(req.model@);
    text::lemma_trimmed_keeps_trimmed(text::trimmed(req.model@));
    let model = model::requested(req.model@);
    model::law_requested_model_is_named(req.model@);
    text::lemma_trimmed_keeps_trimmed(model);
    let places = lemma_keyterm_places(req.keyterms@);
    let base = v1_params(model, req.language@) + seq![("interim_results"@, "true"@)];
    if model::accepts_keyterms(model) {
        assert(req.live_params() =~= base + keyterms_at(places, req.keyterms@));
        places
    } else {
        assert(req.live_params() =~= base + keyterms_at(Seq::empty(), req.keyterms@));
        Seq::empty()
    }
}

/// The parameters on the Flux stream, read off the request: the model, the audio format,
/// the thresholds at their maximum and numbers as digits; the language as it is named, as a
/// hint to a model that has `multi` in its name, unless there is none or it is "auto"; and
/// each of the first hundred custom words that are not blank, trimmed and in order.
pub proof fn law_flux_parameters(req: CloudSttRequest, model: Seq<char>) -> (places: Seq<int>)
    ensures
        are_first_with_words(places, req.keyterms@),
        ({
            let language = text::trimmed(req.language@);
            req.flux_params(model) == seq![
                ("model"@, model),
                ("encoding"@, "linear16"@),
                ("sample_rate"@, "16000"@),
                ("eot_threshold"@, "0.9"@),
                ("eot_timeout_ms"@, "60000"@),
                ("numerals"@, "true"@),
            ] + (if text::occurs_in("multi"@, model) && language.len() > 0 && language != "auto"@
                && language != "multi"@ {
                seq![("language_hint"@, language)]
            } else {
                Seq::empty()
            }) + keyterms_at(places, req.keyterms@)
        }),
{
    lemma_sample_rate();
    lemma_keyterm_places(req.keyterms@)
}

/// The streams of a request speak Flux exactly where its model is named like one.
pub proof fn law_flux_is_spoken_to_flux(req: CloudSttRequest)
    ensures
        req.streams_flux() <==> "flux"@.is_prefix_of(text::trimmed(req.model@)),
{
    model::law_requested_model_is_named(req.model@);
}

/// Every custom word counts: of a list of a hundred or fewer each one that is not blank is
/// among the parameters of a Flux stream, and of a batch request for a model that takes
/// them.
pub proof fn law_no_custom_word_is_lost(req: CloudSttRequest, model: Seq<char>, i: int)
    requires
        0 <= i < req.keyterms@.len() <= 100,
        text::trimmed(req.keyterms@[i]@).len() > 0,
    ensures
        req.flux_params(model).contains(("keyterm"@, text::trimmed(req.keyterms@[i]@))),
        "nova-3"@.is_prefix_of(text::trimmed(req.model@)) ==> req.batch_params().contains(
            ("keyterm"@, text::trimmed(req.keyterms@[i]@)),
        ),
{
    let terms = req.keyterms@;
    let places = law_flux_parameters(req, model);
    lemma_place_found(places, terms, i);
    let k = choose|k: int| 0 <= k < places.len() && places[k] == i;
    let params = req.flux_params(model);
    let at = params.len() - places.len();
    assert(params[at + k] == keyterms_at(places, terms)[k]);
    if "nova-3"@.is_prefix_of(text::trimmed(req.model@)) {
        reveal_strlit("nova-3");
        reveal_strlit("flux");
        let name = text::trimmed(req.model@);
        assert(name.subrange(0, 6)[0] == name[0]);
        if "flux"@.is_prefix_of(name) {
            assert(name.subrange(0, 4)[0] == name[0]);
        }
        let places = law_batch_parameters(req);
        lemma_place_found(places, terms, i);
        let k = choose|k: int| 0 <= k < places.len() && places[k] == i;
        let params = req.batch_params();
        let at = params.len() - places.len();
        assert(params[at + k] == keyterms_at(places, terms)[k]);
    }
}

/// Among a hundred terms or fewer none comes after the hundredth place.
proof fn lemma_place_found(places: Seq<int>, terms: Seq<String>, i: int)
    requires
        are_first_with_words(places, terms),
        0 <= i < terms.len() <= 100,
        text::trimmed(terms[i]@).len() > 0,
    ensures
        places.contains(i),
{
    if !places.contains(i) {
        assert(text::trimmed(terms[i]@).len() > 0);
        lemma_places_run_ahead(places, terms, 99);
    }
}

proof fn lemma_places_run_ahead(places: Seq<int>, terms: Seq<String>, k: int)
    requires
        are_first_with_words(places, terms),
        0 <= k < places.len(),
    ensures
        k <= places[k],
    decreases k,
{
    if k > 0 {
        lemma_places_run_ahead(places, terms, k - 1);
        assert(places[k - 1] < places[k]);
    } else {
        assert(0 <= places[k]);
    }
}

/// A list of parameters says each of them as it stands.
pub proof fn law_params_are_read_as_they_stand(params: Seq<(String, String)>, i: int)
    requires
        0 <= i < params.len(),
    ensures
        param_texts(params).len() == params.len(),
        param_texts(params)[i] == (params[i].0@, params[i].1@),
{
}

} // verus!
