//! Template substitution. The only token is `$NAME$` -> PascalCase. Behind a
//! trait so a future `$name$` / `$NAME_KEBAB$` token is an extension.

use vstd::prelude::*;

use crate::domain::resource_name::ResourceName;
use crate::text::{
    lemma_replace_all_len, lemma_replace_leading_token, lemma_replace_no_match_prefix,
    lemma_replace_plain_prefix, no_pair_start, occurs_in,
    replace_all, replace_all_str, token_count,
};

verus! {

/// `template` with every `$NAME$` replaced by `name`.
pub open spec fn substitute_name(template: Seq<char>, name: Seq<char>) -> Seq<char> {
    replace_all(template, "$NAME$"@, name)
}

/// Turns a template into file contents for a resource name.
pub trait TemplateRenderer {
    /// What rendering `template` for the name `name` gives.
    spec fn rendered(&self, template: Seq<char>, name: Seq<char>) -> Seq<char>;

    fn render(&self, template: &str, name: &ResourceName) -> (r: String)
        ensures
            r@ == self.rendered(template@, name@),
    ;
}

/// Replaces every `$NAME$` with the PascalCase resource name.
pub struct NamePlaceholderRenderer;

impl TemplateRenderer for NamePlaceholderRenderer {
    open spec fn rendered(&self, template: Seq<char>, name: Seq<char>) -> Seq<char> {
        substitute_name(template, name)
    }

    fn render(&self, template: &str, name: &ResourceName) -> (r: String) {
        let token = "$NAME$";
        proof {
            reveal_strlit("$NAME$");
        }
        assert(token@ == "$NAME$"@);
        let r = replace_all_str(template, token, name.pascal());
        assert(r@ == substitute_name(template@, name@));
        assert(self.rendered(template@, name@) == substitute_name(template@, name@));
        r
    }
}

/// Text without the token is left untouched by rendering.
pub proof fn lemma_render_without_token(template: Seq<char>, name: Seq<char>)
    requires
        !occurs_in(template, "$NAME$"@),
    ensures
        substitute_name(template, name) == template,
    decreases template.len(),
{
    reveal_strlit("$NAME$");
    let tok = "$NAME$"@;
    if template.len() > 0 {
        if tok.len() <= template.len() && template.take(tok.len() as int) == tok {
            assert(template.subrange(0, 0int + tok.len()) =~= tok);
            assert(occurs_in(template, tok));
        }
        let rest = template.skip(1);
        assert(!occurs_in(rest, tok)) by {
            if occurs_in(rest, tok) {
                let i = choose|i: int|
                    0 <= i && i + tok.len() <= rest.len() && #[trigger] rest.subrange(i, i + tok.len())
                        == tok;
                assert(template.subrange(i + 1, i + 1 + tok.len()) =~= rest.subrange(i, i + tok.len()));
            }
        }
        lemma_render_without_token(rest, name);
        assert(!(0 < tok.len() <= template.len() && template.take(tok.len() as int) == tok));
        assert(replace_all(template, tok, name) == seq![template[0]] + replace_all(rest, tok, name));
        assert(template =~= seq![template[0]] + rest);
    }
}


/// A template with one `$NAME$` between two stretches without `$` renders
/// to the name between them.
pub proof fn lemma_render_one_token(a: Seq<char>, b: Seq<char>, name: Seq<char>)
    requires
        forall|i: int| 0 <= i < a.len() ==> a[i] != '$',
        forall|i: int| 0 <= i < b.len() ==> b[i] != '$',
    ensures
        substitute_name(a + "$NAME$"@ + b, name) == a + name + b,
{
    reveal_strlit("$NAME$");
    let tok = "$NAME$"@;
    assert(a + tok + b =~= a + (tok + b));
    lemma_replace_plain_prefix(a, tok + b, tok, name);
    lemma_replace_leading_token(b, tok, name);
    lemma_replace_plain_prefix(b, Seq::<char>::empty(), tok, name);
    assert(b + Seq::<char>::empty() =~= b);
    assert(replace_all(Seq::<char>::empty(), tok, name) =~= Seq::<char>::empty());
    assert(a + (name + b) =~= a + name + b);
}


/// Rendering lengthens a template by the name's length less six for each
/// `$NAME$` it replaces.
pub proof fn lemma_render_len(template: Seq<char>, name: Seq<char>)
    ensures
        substitute_name(template, name).len() == template.len() + token_count(template, "$NAME$"@)
            * (name.len() - 6),
{
    reveal_strlit("$NAME$");
    lemma_replace_all_len(template, "$NAME$"@, name);
}


/// Text in which no `$NAME$` can start is rendered as it is.
pub proof fn lemma_render_plain(b: Seq<char>, name: Seq<char>)
    requires
        no_pair_start(b, "$NAME$"@),
    ensures
        substitute_name(b, name) == b,
{
    reveal_strlit("$NAME$");
    let tok = "$NAME$"@;
    lemma_replace_no_match_prefix(b, Seq::<char>::empty(), tok, name);
    assert(b + Seq::<char>::empty() =~= b);
    assert(replace_all(Seq::<char>::empty(), tok, name) =~= Seq::<char>::empty());
}

/// Text in which no `$NAME$` can start, then a `$NAME$`, renders as that
/// text, the name, and what the rest renders to.
pub proof fn lemma_render_step(a: Seq<char>, rest: Seq<char>, name: Seq<char>)
    requires
        no_pair_start(a, "$NAME$"@),
    ensures
        substitute_name(a + "$NAME$"@ + rest, name) == a + name + substitute_name(rest, name),
{
    reveal_strlit("$NAME$");
    let tok = "$NAME$"@;
    assert(a + tok + rest =~= a + (tok + rest));
    lemma_replace_no_match_prefix(a, tok + rest, tok, name);
    lemma_replace_leading_token(rest, tok, name);
    assert(a + (name + replace_all(rest, tok, name)) =~= a + name + replace_all(rest, tok, name));
}

} // verus!
