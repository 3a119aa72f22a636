//! The catalog of language grammars with its one theme, and the highlighting
//! of a code block's text.

use crate::error::{BlogPostError, ErrorModel};
use crate::text::text_view;
use vstd::prelude::*;
use vstd::string::*;

verus! {

/// syntect's set of language grammars, carried as an opaque value.
#[verifier::external_type_specification]
#[verifier::external_body]
pub struct ExSyntaxSet(syntect::parsing::SyntaxSet);

/// syntect's theme, carried as an opaque value.
#[verifier::external_type_specification]
#[verifier::external_body]
pub struct ExTheme(syntect::highlighting::Theme);

/// The identifier of the one theme that every block is highlighted with.
pub open spec fn selected_theme() -> Seq<char> {
    "base16-ocean.dark"@
}

/// The keys of the themes that syntect documents its built-in set to hold.
pub open spec fn is_builtin_theme(name: Seq<char>) -> bool {
    ||| name == "base16-ocean.dark"@
    ||| name == "base16-eighties.dark"@
    ||| name == "base16-mocha.dark"@
    ||| name == "base16-ocean.light"@
    ||| name == "InspiredGitHub"@
    ||| name == "Solarized (dark)"@
    ||| name == "Solarized (light)"@
}

/// The grammars that ship with syntect and one theme of its built-in set,
/// kept with the key that it was taken by. `new` is the only way to make a
/// registry, and nothing changes one afterwards: its theme is always the
/// selected one.
pub struct SyntaxHighlightRegistry {
    syntaxes: syntect::parsing::SyntaxSet,
    theme_name: String,
    theme: syntect::highlighting::Theme,
}

/// Calls `SyntaxSet::load_defaults_newlines`: the grammars built into syntect.
#[verifier::external_body]
fn load_syntaxes() -> (syntaxes: syntect::parsing::SyntaxSet) {
    syntect::parsing::SyntaxSet::load_defaults_newlines()
}

/// Calls `ThemeSet::load_defaults` and takes the theme under the key `name`.
/// The key must be one that syntect documents the built-in set to hold:
/// under any other the lookup panics.
#[verifier::external_body]
fn load_theme(name: &str) -> (theme: syntect::highlighting::Theme)
    requires
        is_builtin_theme(name@),
{
    syntect::highlighting::ThemeSet::load_defaults().themes[name].clone()
}

/// What highlighting with the built-in theme `theme` gives when the grammar
/// is looked up by `SyntaxSet::find_syntax_by_token`: `None` where no grammar
/// answers to `lang`, else the markup of `code` or the highlighter's error
/// message.
pub uninterp spec fn token_highlight(theme: Seq<char>, lang: Seq<char>, code: Seq<char>) -> Option<
    Result<Seq<char>, Seq<char>>,
>;

/// The same with the grammar looked up by `SyntaxSet::find_syntax_by_extension`.
pub uninterp spec fn extension_highlight(
    theme: Seq<char>,
    lang: Seq<char>,
    code: Seq<char>,
) -> Option<Result<Seq<char>, Seq<char>>>;

/// A lookup's outcome with its texts as character sequences.
pub open spec fn lookup_view(r: Option<Result<String, String>>) -> Option<
    Result<Seq<char>, Seq<char>>,
> {
    match r {
        None => None,
        Some(Ok(markup)) => Some(Ok(markup@)),
        Some(Err(cause)) => Some(Err(cause@)),
    }
}

/// Looks `lang` up with `SyntaxSet::find_syntax_by_token` and, on a hit, runs
/// `syntect::html::highlighted_html_for_string` on `code` with that grammar
/// and the registry's theme. The contract only names the outcome
/// `token_highlight` of the theme's key, `lang` and `code`; it claims nothing
/// of the markup.
#[verifier::external_body]
fn highlight_by_token(registry: &SyntaxHighlightRegistry, lang: &str, code: &str) -> (r: Option<
    Result<String, String>,
>)
    ensures
        lookup_view(r) == token_highlight(registry.theme_name@, lang@, code@),
{
    let syntax = registry.syntaxes.find_syntax_by_token(lang)?;
    Some(
        syntect::html::highlighted_html_for_string(
            code,
            &registry.syntaxes,
            syntax,
            &registry.theme,
        ).map_err(|e| e.to_string()),
    )
}

/// Looks `lang` up with `SyntaxSet::find_syntax_by_extension` and, on a hit,
/// runs `syntect::html::highlighted_html_for_string` as above. The contract
/// only names the outcome `extension_highlight` of the theme's key, `lang`
/// and `code`.
#[verifier::external_body]
fn highlight_by_extension(registry: &SyntaxHighlightRegistry, lang: &str, code: &str) -> (r:
    Option<Result<String, String>>)
    ensures
        lookup_view(r) == extension_highlight(registry.theme_name@, lang@, code@),
{
    let syntax = registry.syntaxes.find_syntax_by_extension(lang)?;
    Some(
        syntect::html::highlighted_html_for_string(
            code,
            &registry.syntaxes,
            syntax,
            &registry.theme,
        ).map_err(|e| e.to_string()),
    )
}

/// What one lookup says of a block: the markup, no grammar, or the
/// highlighter's failure as an error.
pub open spec fn lookup_outcome(lookup: Option<Result<Seq<char>, Seq<char>>>) -> Result<
    Option<Seq<char>>,
    ErrorModel,
> {
    match lookup {
        Some(Ok(markup)) => Ok(Some(markup)),
        Some(Err(cause)) => Err(ErrorModel::SyntaxHighlighting(cause)),
        None => Ok(None),
    }
}

/// What highlighting `code` as `lang` with the selected theme gives: the
/// grammar is looked up by token first and by file extension only if no
/// token matches. `Ok(None)`
/// means that neither lookup knows `lang`; an error, that the highlighter
/// failed on the grammar found.
pub open spec fn highlight_outcome(lang: Seq<char>, code: Seq<char>) -> Result<
    Option<Seq<char>>,
    ErrorModel,
> {
    match token_highlight(selected_theme(), lang, code) {
        Some(outcome) => lookup_outcome(Some(outcome)),
        None => lookup_outcome(extension_highlight(selected_theme(), lang, code)),
    }
}

/// The highlighted markup of `code` in the language `lang`, or `None` where
/// the block is to be rendered plainly: after a miss and after a failure.
pub open spec fn highlighted(lang: Seq<char>, code: Seq<char>) -> Option<Seq<char>> {
    match highlight_outcome(lang, code) {
        Ok(markup) => markup,
        Err(_) => None,
    }
}

/// Sorts one lookup's outcome: markup, no grammar, or a highlighting error
/// that carries the cause.
pub fn outcome_from(lookup: Option<Result<String, String>>) -> (r: Result<
    Option<String>,
    BlogPostError,
>)
    ensures
        match r {
            Ok(markup) => lookup_outcome(lookup_view(lookup)) == Ok::<
                Option<Seq<char>>,
                ErrorModel,
            >(text_view(markup)),
            Err(e) => lookup_outcome(lookup_view(lookup)) == Err::<Option<Seq<char>>, ErrorModel>(
                e@,
            ),
        },
{
    match lookup {
        Some(Ok(markup)) => Ok(Some(markup)),
        Some(Err(cause)) => Err(BlogPostError::SyntaxHighlighting(cause)),
        None => Ok(None),
    }
}

impl SyntaxHighlightRegistry {
    /// A registry's theme is the selected one.
    #[verifier::type_invariant]
    spec fn holds_selected_theme(self) -> bool {
        self.theme_name@ == selected_theme()
    }

    /// The key of the registry's theme in syntect's built-in set.
    pub closed spec fn theme(&self) -> Seq<char> {
        self.theme_name@
    }

    /// Loads the catalog: syntect's built-in grammars, and of its built-in
    /// themes the selected one, `base16-ocean.dark`.
    pub fn new() -> (registry: SyntaxHighlightRegistry)
        ensures
            registry.theme() == selected_theme(),
            is_builtin_theme(registry.theme()),
    {
        let name = "base16-ocean.dark";
        SyntaxHighlightRegistry {
            syntaxes: load_syntaxes(),
            theme_name: String::from_str(name),
            theme: load_theme(name),
        }
    }

    /// The key of the registry's theme.
    pub fn theme_name(&self) -> (name: &str)
        ensures
            name@ == self.theme(),
            name@ == selected_theme(),
    {
        proof {
            use_type_invariant(self);
        }
        self.theme_name.as_str()
    }

    /// Highlights `code` as `lang`. `Ok(None)` means that no grammar answers
    /// to `lang`; an error, that highlighting failed. Either way the caller
    /// renders the block plainly.
    pub fn highlight(&self, lang: &str, code: &str) -> (r: Result<Option<String>, BlogPostError>)
        ensures
            match r {
                Ok(markup) => highlight_outcome(lang@, code@) == Ok::<
                    Option<Seq<char>>,
                    ErrorModel,
                >(text_view(markup)),
                Err(e) => highlight_outcome(lang@, code@) == Err::<Option<Seq<char>>, ErrorModel>(
                    e@,
                ),
            },
    {
        proof {
            use_type_invariant(self);
        }
        match highlight_by_token(self, lang, code) {
            Some(outcome) => outcome_from(Some(outcome)),
            None => outcome_from(highlight_by_extension(self, lang, code)),
        }
    }
}

} // verus!
