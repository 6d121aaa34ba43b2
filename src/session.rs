//! The session a host holds: the current mask key and the handler registry.
use vstd::prelude::*;
use crate::html::{
    all_selectors_valid, compile_selectors, compiled_from, rewrite_compiled, rewritten_by,
    CompiledSelector, HandlerSpec, RewriteError,
};
use crate::mask::{lemma_key_determines_mask, mask_apply, xor_seq};
use crate::registry::{
    is_standard, lemma_standard_validity, standard_handlers, standard_selectors_valid, DEFAULT_TITLE,
};

verus! {

/// Marker text put in front of every script handed to `transform_js`.
pub const SCRIPT_MARKER: &'static str = "/* ign-jit-morph v3.1 */\n";

/// A session: one active mask key, and a registry fixed and compiled at
/// construction.
pub struct IgnitionRewriter {
    xor_key: u8,
    handlers: Vec<HandlerSpec>,
    selectors: Vec<CompiledSelector>,
}

impl IgnitionRewriter {
    /// One compiled selector for each handler, compiled from its text.
    #[verifier::type_invariant]
    spec fn compiled(&self) -> bool {
        compiled_from(self.selectors@, self.handlers@)
    }

    /// The mask key in effect.
    pub closed spec fn key(&self) -> u8 {
        self.xor_key
    }

    /// The registry, in registration order.
    pub closed spec fn handlers(&self) -> Seq<HandlerSpec> {
        self.handlers@
    }

    /// A session with mask key `xor_key` and the standard registry; fails
    /// with `Configuration` exactly when one of its selectors is malformed.
    pub fn new(xor_key: u8) -> (r: Result<Self, RewriteError>)
        ensures
            r is Ok <==> standard_selectors_valid(),
            r matches Ok(s) ==> s.key() == xor_key && is_standard(s.handlers(), DEFAULT_TITLE@),
            r matches Err(e) ==> e == RewriteError::Configuration,
    {
        let handlers = standard_handlers(DEFAULT_TITLE);
        proof {
            lemma_standard_validity(handlers@, DEFAULT_TITLE@);
        }
        Self::with_handlers(xor_key, handlers)
    }

    /// A session with mask key `xor_key` and the registry `handlers`; fails
    /// with `Configuration` exactly when a selector is malformed.
    pub fn with_handlers(xor_key: u8, handlers: Vec<HandlerSpec>) -> (r: Result<Self, RewriteError>)
        ensures
            r is Ok <==> all_selectors_valid(handlers@),
            r matches Ok(s) ==> s.key() == xor_key && s.handlers() == handlers@,
            r matches Err(e) ==> e == RewriteError::Configuration,
    {
        match compile_selectors(&handlers) {
            Ok(selectors) => Ok(IgnitionRewriter { xor_key, handlers, selectors }),
            Err(e) => Err(e),
        }
    }

    /// Mask `data` in place with the current key.
    pub fn rewrite_bytes(&self, data: &mut [u8])
        ensures
            final(data)@ == xor_seq(old(data)@, self.key()),
    {
        mask_apply(data, self.xor_key);
    }

    /// Rewrite an HTML document with the session's compiled registry: each
    /// selector bound to its action, in registration order. The selectors
    /// were checked at construction, so the only failures are the
    /// tokenizer's.
    pub fn transform_html(&self, html: &str) -> (r: Result<String, RewriteError>)
        ensures
            r matches Err(e) ==> e == RewriteError::Parse || e == RewriteError::Encoding,
            r matches Ok(s) ==> rewritten_by(self.handlers(), html@, s@),
    {
        proof {
            use_type_invariant(self);
        }
        rewrite_compiled(html, &self.selectors, &self.handlers)
    }

    /// The script, unchanged, behind the fixed marker text.
    pub fn transform_js(&self, code: &str) -> (r: String)
        ensures
            r@ == SCRIPT_MARKER@ + code@,
    {
        let mut r = String::from_str(SCRIPT_MARKER);
        r.append(code);
        r
    }

    /// Make `new_key` the mask key for every later call.
    pub fn rotate_key(&mut self, new_key: u8)
        ensures
            final(self).key() == new_key,
            final(self).handlers() == old(self).handlers(),
    {
        proof {
            use_type_invariant(&*self);
        }
        self.xor_key = new_key;
    }
}

/// After a session's key is rotated to `new_key`, masking uses `new_key`:
/// on any non-empty buffer the result differs from masking with the key the
/// session had before, unless the two keys are equal.
pub proof fn lemma_rotation_takes_effect(
    before: IgnitionRewriter,
    after: IgnitionRewriter,
    new_key: u8,
    bytes: Seq<u8>,
)
    requires
        after.key() == new_key,
    ensures
        xor_seq(bytes, after.key()) == xor_seq(bytes, new_key),
        bytes.len() > 0 && before.key() != new_key ==> xor_seq(bytes, after.key()) != xor_seq(
            bytes,
            before.key(),
        ),
{
    if bytes.len() > 0 && before.key() != new_key {
        lemma_key_determines_mask(bytes, new_key, before.key());
    }
}

} // verus!
