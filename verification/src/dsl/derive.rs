//! Deriving `StateVariant` and `EventVariant` for an enum.
//!
//! The derived `variant_name` matches on the enum and returns each variant's identifier,
//! whatever its payload. From the source text of an enum this module writes the source
//! text of that impl ([`variant_names_impl`] writes it from the enum's name and variants).
//!
//! The enum is parsed by `syn`, which lexes through `proc_macro2`: that lexer normalises
//! identifiers in one setting and not in the other, so what the parse gives is named on
//! ASCII text only, and its error message not at all.

use vstd::prelude::*;
use vstd::string::*;

use crate::dsl::token::ascii_text;

verus! {

/// The kind of fields a variant has.
#[derive(Clone, Copy, Debug, PartialEq, Eq)]
pub enum Fields {
    /// `Variant`
    Unit,
    /// `Variant(..)`
    Unnamed,
    /// `Variant { .. }`
    Named,
}

/// A variant: its name and the kind of its fields.
#[derive(Debug)]
pub struct VariantShape {
    pub name: String,
    pub fields: Fields,
}

/// The abstract form of a variant.
pub struct VariantView {
    pub name: Seq<char>,
    pub fields: Fields,
}

impl View for VariantShape {
    type V = VariantView;

    open spec fn view(&self) -> VariantView {
        VariantView { name: self.name@, fields: self.fields }
    }
}

/// What `syn` parses the item `src` into: its name and, for an enum, its variants; `None`
/// where it refuses the text.
pub uninterp spec fn derive_input(src: Seq<char>) -> Option<(Seq<char>, Option<Seq<VariantView>>)>;

/// `syn::parse_str::<syn::DeriveInput>`, with the item's identifier, and for an enum each
/// variant's identifier and kind of fields, converted one for one; or the parser's message.
/// On ASCII text the result is named by [`derive_input`]; the message is not stated.
#[verifier::external_body]
fn parse_derive_input(src: &str) -> (r: Result<(String, Option<Vec<VariantShape>>), String>)
    ensures
        ascii_text(src@) ==> derive_input(src@) == match r {
            Ok((name, variants)) => Some::<(Seq<char>, Option<Seq<VariantView>>)>(
                (
                    name@,
                    match variants {
                        Some(v) => Some(v@.map_values(|s: VariantShape| s@)),
                        None => None,
                    },
                ),
            ),
            Err(_) => None::<(Seq<char>, Option<Seq<VariantView>>)>,
        },
{
    let input = syn::parse_str::<syn::DeriveInput>(src).map_err(|e| e.to_string())?;
    let variants = match input.data {
        syn::Data::Enum(e) => Some(e.variants.iter().map(|v| VariantShape {
            name: v.ident.to_string(),
            fields: match v.fields {
                syn::Fields::Unit => Fields::Unit,
                syn::Fields::Unnamed(_) => Fields::Unnamed,
                syn::Fields::Named(_) => Fields::Named,
            },
        }).collect()),
        _ => None,
    };
    Ok((input.ident.to_string(), variants))
}

/// The pattern that matches a variant with fields of kind `f`, after its name.
pub open spec fn pattern_text(f: Fields) -> Seq<char> {
    match f {
        Fields::Unit => Seq::empty(),
        Fields::Unnamed => "(..)"@,
        Fields::Named => " { .. }"@,
    }
}

/// The match arm that names variant `v`.
pub open spec fn arm_text(v: VariantView) -> Seq<char> {
    "Self::"@ + v.name + pattern_text(v.fields) + " => \""@ + v.name + "\", "@
}

/// The match arms that name the variants `vs`, in order.
pub open spec fn arms_text(vs: Seq<VariantView>) -> Seq<char>
    decreases vs.len(),
{
    if vs.len() == 0 {
        Seq::empty()
    } else {
        arms_text(vs.drop_last()) + arm_text(vs.last())
    }
}

/// The impl of trait `tr` for the enum `name` with variants `vs`.
pub open spec fn impl_text(tr: Seq<char>, name: Seq<char>, vs: Seq<VariantView>) -> Seq<char> {
    "impl ::obzenflow_fsm::"@ + tr + " for "@ + name
        + " { fn variant_name(&self) -> &str { match self { "@ + arms_text(vs) + "} } }"@
}

/// What deriving trait `tr` for the item `src` gives: the impl's source text, or the error
/// that only enums are accepted; `None` where the item does not parse.
pub open spec fn spec_derive(tr: Seq<char>, src: Seq<char>) -> Option<Result<Seq<char>, Seq<char>>> {
    match derive_input(src) {
        None => None,
        Some((_, None)) => Some(Err(tr + " can only be derived for enums"@)),
        Some((name, Some(vs))) => Some(Ok(impl_text(tr, name, vs))),
    }
}

/// The views of the variants `vs`.
pub open spec fn variants_view(vs: Seq<VariantShape>) -> Seq<VariantView> {
    vs.map_values(|s: VariantShape| s@)
}

/// The source text of the impl of trait `tr` (`StateVariant` or `EventVariant`) for the
/// enum `name` with the variants `variants`: a `variant_name` that matches each variant,
/// whatever its fields, and returns its name.
pub fn variant_names_impl(tr: &str, name: &str, variants: &Vec<VariantShape>) -> (s: String)
    ensures
        s@ == impl_text(tr@, name@, variants_view(variants@)),
{
    let ghost vs = variants_view(variants@);
    let mut arms = String::new();
    let mut k: usize = 0;
    assert(vs.subrange(0, 0) =~= Seq::<VariantView>::empty());
    while k < variants.len()
        invariant
            k <= variants@.len(),
            vs == variants_view(variants@),
            arms@ == arms_text(vs.subrange(0, k as int)),
        decreases variants@.len() - k,
    {
        let v = &variants[k];
        let ghost before = arms@;
        arms.append("Self::");
        arms.append(v.name.as_str());
        match v.fields {
            Fields::Unit => {},
            Fields::Unnamed => arms.append("(..)"),
            Fields::Named => arms.append(" { .. }"),
        }
        arms.append(" => \"");
        arms.append(v.name.as_str());
        arms.append("\", ");
        proof {
            let pre = vs.subrange(0, k + 1);
            assert(pre.drop_last() =~= vs.subrange(0, k as int));
            assert(pre.last() == v@);
            assert(arms@ =~= before + arm_text(v@));
        }
        k = k + 1;
    }
    assert(vs.subrange(0, k as int) =~= vs);
    let mut out = "impl ::obzenflow_fsm::".to_owned();
    out.append(tr);
    out.append(" for ");
    out.append(name);
    out.append(" { fn variant_name(&self) -> &str { match self { ");
    out.append(arms.as_str());
    out.append("} } }");
    out
}

/// Writes the impl of trait `tr` for the enum whose source text is `src`, or the error:
/// the parser's message, or that only enums are accepted.
fn derive_variant_names(tr: &str, src: &str) -> (r: Result<String, String>)
    ensures
        ascii_text(src@) ==> match spec_derive(tr@, src@) {
            None => r is Err,
            Some(Ok(t)) => r matches Ok(s) && s@ == t,
            Some(Err(m)) => r matches Err(e) && e@ == m,
        },
{
    let (name, variants) = match parse_derive_input(src) {
        Ok(p) => p,
        Err(e) => {
            return Err(e);
        },
    };
    match variants {
        Some(v) => Ok(variant_names_impl(tr, name.as_str(), &v)),
        None => {
            let mut msg = tr.to_owned();
            msg.append(" can only be derived for enums");
            Err(msg)
        },
    }
}

/// The source text of the `StateVariant` impl derived for the enum whose source text is
/// `src`, or the error.
pub fn derive_state_variant(src: &str) -> (r: Result<String, String>)
    ensures
        ascii_text(src@) ==> match spec_derive("StateVariant"@, src@) {
            None => r is Err,
            Some(Ok(t)) => r matches Ok(s) && s@ == t,
            Some(Err(m)) => r matches Err(e) && e@ == m,
        },
{
    derive_variant_names("StateVariant", src)
}

/// The source text of the `EventVariant` impl derived for the enum whose source text is
/// `src`, or the error.
pub fn derive_event_variant(src: &str) -> (r: Result<String, String>)
    ensures
        ascii_text(src@) ==> match spec_derive("EventVariant"@, src@) {
            None => r is Err,
            Some(Ok(t)) => r matches Ok(s) && s@ == t,
            Some(Err(m)) => r matches Err(e) && e@ == m,
        },
{
    derive_variant_names("EventVariant", src)
}

} // verus!
