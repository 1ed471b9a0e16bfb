//! Education edition links.
use crate::error::Error;
use crate::wire::{
    agrees_view, holds_at, lemma_holds_at_concat, lemma_var_text_round_trip, parse_var_text,
    read_var_text, text_fits, var_text, write_var_text,
};
use vstd::prelude::*;

verus! {


/// A button linking to a shared education resource.
#[derive(Debug, Clone, PartialEq, Eq, Default)]
pub struct EducationSharedResourceURI {
    pub button_name: String,
    pub link_url: String,
}

/// The value of a `EducationSharedResourceURI`, with its text and byte fields as sequences.
pub ghost struct EducationSharedResourceURIView {
    pub button_name: Seq<char>,
    pub link_url: Seq<char>,
}

impl View for EducationSharedResourceURI {
    type V = EducationSharedResourceURIView;

    open spec fn view(&self) -> EducationSharedResourceURIView {
        EducationSharedResourceURIView {
            button_name: self.button_name@,
            link_url: self.link_url@,
        }
    }
}

impl EducationSharedResourceURI {
    /// The fields in declaration order.
    pub open spec fn spec_bytes(self) -> Seq<u8> {
        var_text(self.button_name@)
            + var_text(self.link_url@)
    }

    /// Every text and byte field fits its length prefix.
    pub open spec fn wf(self) -> bool {
        text_fits(self.button_name@)
        && text_fits(self.link_url@)
    }

    pub open spec fn parse(s: Seq<u8>, pos: nat) -> Result<(EducationSharedResourceURIView, nat), Error> {
        match parse_var_text(s, pos) {
            Ok((button_name, p1)) => match parse_var_text(s, p1) {
                Ok((link_url, p2)) => Ok(
                    (
                        EducationSharedResourceURIView {
                            button_name,
                            link_url,
                        },
                        p2,
                    ),
                ),
                Err(e) => Err(e),
            },
            Err(e) => Err(e),
        }
    }

    pub fn serialize(&self, out: &mut Vec<u8>)
        ensures
            final(out)@ == old(out)@ + self.spec_bytes(),
    {
        write_var_text(out, &self.button_name);
        write_var_text(out, &self.link_url);
        assert(final(out)@ =~= old(out)@ + self.spec_bytes());
    }

    pub fn deserialize(buf: &[u8], pos: usize) -> (r: Result<(Self, usize), Error>)
        ensures
            agrees_view(r, Self::parse(buf@, pos as nat), buf@.len()),
    {
        let (button_name, p1) = match read_var_text(buf, pos) {
            Ok(x) => x,
            Err(e) => return Err(e),
        };
        let (link_url, p2) = match read_var_text(buf, p1) {
            Ok(x) => x,
            Err(e) => return Err(e),
        };
        Ok((EducationSharedResourceURI { button_name, link_url }, p2))
    }

    /// Decoding the bytes of a value gives it back and consumes exactly those bytes.
    pub proof fn lemma_round_trip(self, s: Seq<u8>, pos: nat)
        requires
            self.wf(),
            holds_at(s, pos, self.spec_bytes()),
        ensures
            Self::parse(s, pos) == Ok::<(EducationSharedResourceURIView, nat), Error>(
                (self@, pos + self.spec_bytes().len()),
            ),
    {
        let t2 = var_text(self.link_url@);
        lemma_holds_at_concat(s, pos, var_text(self.button_name@), t2);
        lemma_var_text_round_trip(s, pos, self.button_name@);
        let p1 = pos + var_text(self.button_name@).len();
        lemma_var_text_round_trip(s, p1, self.link_url@);
    }
}

/// A link shown in the education edition.
#[derive(Debug, Clone, PartialEq, Eq, Default)]
pub struct EducationEditionalLinkSettings {
    pub url: String,
    pub display_name: String,
}

/// The value of a `EducationEditionalLinkSettings`, with its text and byte fields as sequences.
pub ghost struct EducationEditionalLinkSettingsView {
    pub url: Seq<char>,
    pub display_name: Seq<char>,
}

impl View for EducationEditionalLinkSettings {
    type V = EducationEditionalLinkSettingsView;

    open spec fn view(&self) -> EducationEditionalLinkSettingsView {
        EducationEditionalLinkSettingsView {
            url: self.url@,
            display_name: self.display_name@,
        }
    }
}

impl EducationEditionalLinkSettings {
    /// The fields in declaration order.
    pub open spec fn spec_bytes(self) -> Seq<u8> {
        var_text(self.url@)
            + var_text(self.display_name@)
    }

    /// Every text and byte field fits its length prefix.
    pub open spec fn wf(self) -> bool {
        text_fits(self.url@)
        && text_fits(self.display_name@)
    }

    pub open spec fn parse(s: Seq<u8>, pos: nat) -> Result<(EducationEditionalLinkSettingsView, nat), Error> {
        match parse_var_text(s, pos) {
            Ok((url, p1)) => match parse_var_text(s, p1) {
                Ok((display_name, p2)) => Ok(
                    (
                        EducationEditionalLinkSettingsView {
                            url,
                            display_name,
                        },
                        p2,
                    ),
                ),
                Err(e) => Err(e),
            },
            Err(e) => Err(e),
        }
    }

    pub fn serialize(&self, out: &mut Vec<u8>)
        ensures
            final(out)@ == old(out)@ + self.spec_bytes(),
    {
        write_var_text(out, &self.url);
        write_var_text(out, &self.display_name);
        assert(final(out)@ =~= old(out)@ + self.spec_bytes());
    }

    pub fn deserialize(buf: &[u8], pos: usize) -> (r: Result<(Self, usize), Error>)
        ensures
            agrees_view(r, Self::parse(buf@, pos as nat), buf@.len()),
    {
        let (url, p1) = match read_var_text(buf, pos) {
            Ok(x) => x,
            Err(e) => return Err(e),
        };
        let (display_name, p2) = match read_var_text(buf, p1) {
            Ok(x) => x,
            Err(e) => return Err(e),
        };
        Ok((EducationEditionalLinkSettings { url, display_name }, p2))
    }

    /// Decoding the bytes of a value gives it back and consumes exactly those bytes.
    pub proof fn lemma_round_trip(self, s: Seq<u8>, pos: nat)
        requires
            self.wf(),
            holds_at(s, pos, self.spec_bytes()),
        ensures
            Self::parse(s, pos) == Ok::<(EducationEditionalLinkSettingsView, nat), Error>(
                (self@, pos + self.spec_bytes().len()),
            ),
    {
        let t2 = var_text(self.display_name@);
        lemma_holds_at_concat(s, pos, var_text(self.url@), t2);
        lemma_var_text_round_trip(s, pos, self.url@);
        let p1 = pos + var_text(self.url@).len();
        lemma_var_text_round_trip(s, p1, self.display_name@);
    }
}

} // verus!
