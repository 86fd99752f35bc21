//! Which model and which language a request names, and what follows from the name of
//! a model.

use vstd::prelude::*;

use crate::text::{self, same_text, starts_with};

verus! {

/// How settings refer to the Deepgram backend.
pub const DEEPGRAM_PROVIDER_ID: &'static str = "deepgram";

/// The model used where a request names none, and by every batch request that names a
/// Flux model.
pub const DEEPGRAM_DEFAULT_MODEL: &'static str = "nova-3";

/// Deepgram's conversational model, which only streams and has a wire protocol of its
/// own.
///
/// The multilingual variant is the default because the language setting defaults to
/// "auto": it covers ten languages, English among them, and detects which one is
/// spoken, whereas `flux-general-en` would force English on everyone.
pub const DEEPGRAM_FLUX_MODEL: &'static str = "flux-general-multi";

/// A Flux model: one whose name, trimmed, begins with "flux".
pub open spec fn is_flux(model: Seq<char>) -> bool {
    "flux"@.is_prefix_of(text::trimmed(model))
}

/// A model that takes keyterms while it decodes: Flux, or one whose name begins with
/// "nova-3" as it stands.
pub open spec fn accepts_keyterms(model: Seq<char>) -> bool {
    is_flux(model) || "nova-3"@.is_prefix_of(model)
}

/// The model that a batch request uses in place of `model`.
pub open spec fn batch_name(model: Seq<char>) -> Seq<char> {
    if is_flux(model) {
        DEEPGRAM_DEFAULT_MODEL@
    } else {
        model
    }
}

/// The model that a request with this model setting asks for.
pub open spec fn requested(model: Seq<char>) -> Seq<char> {
    if text::trimmed(model).len() == 0 {
        DEEPGRAM_DEFAULT_MODEL@
    } else {
        text::trimmed(model)
    }
}

/// Deepgram's name for a language setting.
pub open spec fn language_code(language: Seq<char>) -> Seq<char> {
    let name = text::trimmed(language);
    if name.len() == 0 || name == "auto"@ {
        "multi"@
    } else {
        name
    }
}

/// Whether the model takes keyterms while it decodes.
///
/// Callers use this to decide whether their own correction of custom words still has to
/// run: when the model has been told the terms, correcting its output again only risks
/// rewriting words that it got right.
pub fn model_accepts_keyterms(model: &str) -> (r: bool)
    ensures
        r == accepts_keyterms(model@),
{
    // Older models than nova-3 answer a keyterm with an error. Flux takes it in every
    // variant.
    is_flux_model(model) || starts_with(model, "nova-3")
}

/// Whether the model speaks `/v2/listen` with `TurnInfo` frames; every other model
/// speaks `/v1/listen` with `Results` frames. The name is all there is to tell by.
pub fn is_flux_model(model: &str) -> (r: bool)
    ensures
        r == is_flux(model@),
{
    starts_with(model.trim(), "flux")
}

/// The model to use on the batch endpoint. Flux only streams, so a Flux model gives way
/// to the default one: the batch path is there for when the stream fails.
pub fn batch_model(model: &str) -> (r: &str)
    ensures
        r@ == batch_name(model@),
{
    if is_flux_model(model) {
        DEEPGRAM_DEFAULT_MODEL
    } else {
        model
    }
}

/// The model that a request with this model setting asks for: the setting trimmed, or
/// the default model where nothing is left.
pub fn requested_model(model: &str) -> (r: &str)
    ensures
        r@ == requested(model@),
{
    let name = model.trim();
    if name.is_empty() {
        DEEPGRAM_DEFAULT_MODEL
    } else {
        name
    }
}

/// Deepgram's name for a language setting. It has no "auto": `multi` is its
/// multilingual mode.
pub fn deepgram_language(language: &str) -> (r: String)
    ensures
        r@ == language_code(language@),
{
    let name = language.trim();
    if name.is_empty() || same_text(name, "auto") {
        "multi".to_string()
    } else {
        name.to_string()
    }
}

/// What the names of the models that are spelled out here amount to.
pub proof fn lemma_default_models()
    ensures
        requested(DEEPGRAM_DEFAULT_MODEL@) == DEEPGRAM_DEFAULT_MODEL@,
        !is_flux(DEEPGRAM_DEFAULT_MODEL@),
        accepts_keyterms(DEEPGRAM_DEFAULT_MODEL@),
        is_flux(DEEPGRAM_FLUX_MODEL@),
        text::occurs_in("multi"@, DEEPGRAM_FLUX_MODEL@),
{
    reveal_strlit("nova-3");
    reveal_strlit("flux");
    reveal_strlit("multi");
    reveal_strlit("flux-general-multi");
    let default = DEEPGRAM_DEFAULT_MODEL@;
    text::lemma_trimmed_keeps_trimmed(default);
    assert(default[0] != "flux"@[0]);
    let flux = DEEPGRAM_FLUX_MODEL@;
    text::lemma_trimmed_keeps_trimmed(flux);
    assert(flux.subrange(0, 4) =~= "flux"@);
    assert(flux.subrange(13, 13int + "multi"@.len()) =~= "multi"@);
}

/// The batch endpoint is never asked for a Flux model, which it cannot serve.
pub proof fn law_batch_model_is_never_flux(model: Seq<char>)
    ensures
        !is_flux(batch_name(model)),
{
    lemma_default_models();
}

/// The fallback to the batch model leaves it as it was whether keyterms are taken, so it
/// cannot switch a caller's own correction of custom words on or off.
pub proof fn law_fallback_keeps_keyterms(model: Seq<char>)
    ensures
        accepts_keyterms(batch_name(model)) == accepts_keyterms(model),
{
    lemma_default_models();
}

/// Falling back twice is falling back once.
pub proof fn law_batch_model_is_idempotent(model: Seq<char>)
    ensures
        batch_name(batch_name(model)) == batch_name(model),
{
    lemma_default_models();
}

/// A request always asks for some model, and its name has no white space at its ends.
pub proof fn law_requested_model_is_named(model: Seq<char>)
    ensures
        requested(model).len() > 0,
        text::is_trimmed(requested(model)),
        is_flux(requested(model)) == is_flux(model),
{
    reveal_strlit("nova-3");
    reveal_strlit("flux");
    lemma_default_models();
    text::lemma_trimmed_is_trimmed(model);
    text::lemma_trimmed_keeps_trimmed(text::trimmed(model));
}

/// Deepgram is never told "auto", nor nothing at all.
pub proof fn law_language_is_never_auto(language: Seq<char>)
    ensures
        language_code(language).len() > 0,
        language_code(language) != "auto"@,
{
    reveal_strlit("multi");
    reveal_strlit("auto");
    assert("multi"@[0] != "auto"@[0]);
}

/// A language setting is passed on under its own name, whatever white space stands around
/// it; "auto" and a setting without words become Deepgram's multilingual mode.
pub proof fn law_language_is_passed_on(lead: Seq<char>, name: Seq<char>, tail: Seq<char>)
    requires
        text::is_blank(lead),
        text::is_blank(tail),
        text::is_trimmed(name),
    ensures
        language_code(lead + name + tail) == if name.len() == 0 || name == "auto"@ {
            "multi"@
        } else {
            name
        },
{
    text::law_trimming_drops_padding(lead, name, tail);
}

/// A request asks for the model that its setting names, whatever white space stands around
/// the name, and for `nova-3` where the setting has no words.
pub proof fn law_model_is_passed_on(lead: Seq<char>, name: Seq<char>, tail: Seq<char>)
    requires
        text::is_blank(lead),
        text::is_blank(tail),
        text::is_trimmed(name),
    ensures
        requested(lead + name + tail) == if name.len() == 0 {
            "nova-3"@
        } else {
            name
        },
{
    text::law_trimming_drops_padding(lead, name, tail);
}

/// A Flux model is told by the first four letters of its name, whatever follows them; so
/// is a model that takes keyterms, by those or by the six of `nova-3`. White space in front
/// counts for nothing in a Flux model's name, and for something in any other.
pub proof fn law_models_are_told_by_their_first_letters(lead: Seq<char>, name: Seq<char>)
    requires
        text::is_blank(lead),
        name.len() > 0,
        !text::is_white_space(name[0]),
    ensures
        is_flux(lead + name) <==> (name.len() >= 4 && name[0] == 'f' && name[1] == 'l' && name[2]
            == 'u' && name[3] == 'x'),
        accepts_keyterms(lead + name) <==> (is_flux(lead + name) || (lead.len() == 0 && name.len()
            >= 6 && name[0] == 'n' && name[1] == 'o' && name[2] == 'v' && name[3] == 'a' && name[4]
            == '-' && name[5] == '3')),
{
    reveal_strlit("flux");
    reveal_strlit("nova-3");
    let (around, tail) = text::law_trimming_splits(name);
    let words = text::trimmed(name);
    text::law_words_survive_trimming(name);
    text::lemma_trimmed_is_trimmed(name);
    if around.len() > 0 {
        assert(name[0] == around[0]);
    }
    assert(around =~= Seq::empty());
    assert(name =~= words + tail);
    assert(lead + name =~= lead + words + tail);
    text::law_trimming_drops_padding(lead, words, tail);
    assert(text::trimmed(lead + name) == words);
    let four = name.len() >= 4 && name[0] == 'f' && name[1] == 'l' && name[2] == 'u' && name[3]
        == 'x';
    if four {
        if words.len() < 4 {
            assert(name[3] == tail[3 - words.len()]);
        }
        assert(words.subrange(0, 4) =~= "flux"@);
    }
    if is_flux(lead + name) {
        assert(words.subrange(0, 4) == "flux"@);
        assert(words.subrange(0, 4)[0] == words[0] && words.subrange(0, 4)[1] == words[1]
            && words.subrange(0, 4)[2] == words[2] && words.subrange(0, 4)[3] == words[3]);
    }
    let whole = lead + name;
    if "nova-3"@.is_prefix_of(whole) {
        if lead.len() > 0 {
            assert(whole[0] == lead[0]);
            assert(whole.subrange(0, 6)[0] == whole[0]);
        }
        assert(whole =~= name);
        assert(name.subrange(0, 6)[0] == name[0] && name.subrange(0, 6)[1] == name[1]
            && name.subrange(0, 6)[2] == name[2] && name.subrange(0, 6)[3] == name[3]
            && name.subrange(0, 6)[4] == name[4] && name.subrange(0, 6)[5] == name[5]);
    }
    if lead.len() == 0 && name.len() >= 6 && name[0] == 'n' && name[1] == 'o' && name[2] == 'v'
        && name[3] == 'a' && name[4] == '-' && name[5] == '3' {
        assert(whole =~= name);
        assert(whole.subrange(0, 6) =~= "nova-3"@);
    }
}

/// A name without words is no Flux model and takes no keyterms.
pub proof fn law_no_name_is_no_model(model: Seq<char>)
    requires
        text::is_blank(model),
    ensures
        !is_flux(model),
        !accepts_keyterms(model),
{
    reveal_strlit("flux");
    reveal_strlit("nova-3");
    text::law_words_survive_trimming(model);
    if "nova-3"@.is_prefix_of(model) {
        assert(model.subrange(0, 6)[0] == model[0]);
    }
}

/// The batch endpoint is asked for the model as it is named, but for `nova-3` in place of
/// every Flux model.
pub proof fn law_batch_model_is_the_named_one(model: Seq<char>)
    ensures
        batch_name(model) == if "flux"@.is_prefix_of(text::trimmed(model)) {
            "nova-3"@
        } else {
            model
        },
{
}

} // verus!
