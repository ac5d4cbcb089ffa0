use vstd::prelude::*;
use vstd::utf8::valid_utf8;
use crate::error::ValidationFault;
use crate::text::check_utf8;

verus! {

/// How one infer-and-sample step ended: a sampled token, clean exhaustion
/// of a pipeline component, or a hard error.
pub enum StepOutcome {
    Token(u16),
    Exhausted,
    Failed(String),
}

/// What the driver does next with a running generation.
pub enum LoopAction {
    Proceed,
    Finish,
    Fail(String),
}

/// Why a generation could not start. Exhaustion on the very first step is a
/// validation-style failure — the distinct "exhausted at start" message —
/// while any other first-step error surfaces as it is.
pub enum StartError {
    ExhaustedAtStart,
    Failed(String),
}

impl StartError {
    /// The text the transport serializes for this failure.
    pub fn message(self) -> (r: String)
        ensures
            match self {
                StartError::ExhaustedAtStart => r@
                    == ValidationFault::ExhaustedAtStart.message_spec(),
                StartError::Failed(m) => r@ == m@,
            },
    {
        match self {
            StartError::ExhaustedAtStart => ValidationFault::ExhaustedAtStart.message(),
            StartError::Failed(m) => m,
        }
    }
}

/// The finished generation, as the response carries it. The text bytes are
/// proven valid UTF-8, so the transport's string conversion cannot fail.
pub struct GenOutput {
    pub text: Vec<u8>,
    pub last_token: u16,
    pub tokens_emitted: usize,
}

/// One generation's loop state. `emitted` is the whole sampled token
/// sequence; `out_tokens` are the sampled tokens not yet decoded into text
/// — always exactly the tail of `emitted` — and `text` holds the decoded
/// committed prefix, valid UTF-8 at every step.
pub struct GenLoop {
    pub out_tokens: Vec<u16>,
    pub text: Vec<u8>,
    pub inferred_tokens: usize,
    pub last_token: u16,
    pub emitted: Ghost<Seq<u16>>,
}

impl GenLoop {
    /// The committed prefix: every emitted token except the still-buffered
    /// tail.
    pub open spec fn committed(self) -> Seq<u16> {
        self.emitted@.take(self.emitted@.len() - self.out_tokens@.len())
    }

    pub open spec fn wf(self) -> bool {
        &&& self.out_tokens@.len() <= self.emitted@.len()
        &&& self.emitted@.skip(self.emitted@.len() - self.out_tokens@.len())
            == self.out_tokens@
        &&& self.inferred_tokens == self.emitted@.len() - self.out_tokens@.len()
        &&& valid_utf8(self.text@)
        &&& self.emitted@.len() > 0
    }

    /// Starts a generation from the first step's outcome. A first-step
    /// exhaustion fails the whole generation — "exhausted at start" — and a
    /// first-step error surfaces as it is; only a sampled token opens the
    /// loop.
    pub fn start(first: StepOutcome) -> (r: Result<GenLoop, StartError>)
        ensures
            match r {
                Ok(g) => {
                    &&& first matches StepOutcome::Token(t) && g.out_tokens@ == seq![t]
                        && g.last_token == t && g.emitted@ == seq![t]
                    &&& g.text@ == Seq::<u8>::empty()
                    &&& g.inferred_tokens == 0
                    &&& g.wf()
                },
                Err(e) => match e {
                    StartError::ExhaustedAtStart => first is Exhausted,
                    StartError::Failed(m) => first matches StepOutcome::Failed(msg) && m@
                        == msg@,
                },
            },
            first is Exhausted ==> r == Err::<GenLoop, StartError>(StartError::ExhaustedAtStart),
    {
        match first {
            StepOutcome::Token(t) => {
                let mut out_tokens: Vec<u16> = Vec::new();
                out_tokens.push(t);
                let ghost all_emitted: Seq<u16> = seq![t];
                let g = GenLoop {
                    out_tokens,
                    text: Vec::new(),
                    inferred_tokens: 0,
                    last_token: t,
                    emitted: Ghost(all_emitted),
                };
                proof {
                    assert(g.out_tokens@ =~= seq![t]);
                    assert(g.emitted@.skip(0) =~= g.emitted@);
                }
                Ok(g)
            },
            StepOutcome::Exhausted => Err(StartError::ExhaustedAtStart),
            StepOutcome::Failed(msg) => Err(StartError::Failed(msg)),
        }
    }

    /// Feeds one mid-loop step outcome. A token keeps the loop running; an
    /// exhaustion mid-generation is a clean finish with the tokens so far;
    /// any other error aborts the generation.
    pub fn on_outcome(&mut self, outcome: StepOutcome) -> (r: LoopAction)
        requires
            old(self).wf(),
            old(self).out_tokens@.len() < usize::MAX,
        ensures
            final(self).wf(),
            match outcome {
                StepOutcome::Token(t) => {
                    &&& r is Proceed
                    &&& final(self).out_tokens@ == old(self).out_tokens@.push(t)
                    &&& final(self).emitted@ == old(self).emitted@.push(t)
                    &&& final(self).committed() == old(self).committed()
                    &&& final(self).text@ == old(self).text@
                    &&& final(self).inferred_tokens == old(self).inferred_tokens
                    &&& final(self).last_token == t
                },
                StepOutcome::Exhausted => r is Finish && *final(self) == *old(self),
                StepOutcome::Failed(msg) => (r matches LoopAction::Fail(m) && m@ == msg@)
                    && *final(self) == *old(self),
            },
    {
        match outcome {
            StepOutcome::Token(t) => {
                self.out_tokens.push(t);
                proof {
                    self.emitted@ = self.emitted@.push(t);
                }
                self.last_token = t;
                proof {
                    let all = self.emitted@;
                    let k = all.len() - self.out_tokens@.len();
                    assert(all.skip(k) =~= old(self).emitted@.skip(k).push(t));
                    assert(all.take(k) =~= old(self).emitted@.take(k));
                }
                LoopAction::Proceed
            },
            StepOutcome::Exhausted => LoopAction::Finish,
            StepOutcome::Failed(msg) => LoopAction::Fail(msg),
        }
    }

    /// Tries to commit the buffered tokens as text. The driver hands in the
    /// tokenizer's decoding of `out_tokens`; it is appended — and the
    /// buffered tokens move into the committed prefix — exactly when the
    /// bytes are valid UTF-8. An incomplete multi-byte sequence fails the
    /// check and everything stays buffered until a later step completes it.
    pub fn commit(&mut self, decoded: &Vec<u8>) -> (r: bool)
        requires
            old(self).wf(),
            old(self).inferred_tokens + old(self).out_tokens@.len() <= usize::MAX,
            old(self).text@.len() + decoded@.len() <= usize::MAX,
        ensures
            final(self).wf(),
            r == valid_utf8(decoded@),
            r ==> final(self).text@ == old(self).text@ + decoded@,
            r ==> final(self).out_tokens@.len() == 0,
            r ==> final(self).inferred_tokens == old(self).inferred_tokens
                + old(self).out_tokens@.len(),
            r ==> final(self).committed() == old(self).emitted@,
            r ==> final(self).emitted@ == old(self).emitted@,
            r ==> final(self).last_token == old(self).last_token,
            !r ==> *final(self) == *old(self),
    {
        let ok = check_utf8(decoded);
        if ok {
            let mut fresh: Vec<u8> = Vec::new();
            let mut k: usize = 0;
            while k < decoded.len()
                invariant
                    k <= decoded@.len(),
                    fresh@ == decoded@.take(k as int),
                decreases decoded@.len() - k,
            {
                fresh.push(decoded[k]);
                proof {
                    assert(decoded@.take(k as int + 1) =~= decoded@.take(k as int).push(
                        decoded@[k as int],
                    ));
                }
                k = k + 1;
            }
            proof {
                assert(decoded@.take(decoded@.len() as int) =~= decoded@);
            }
            let mut add = fresh;
            self.text.append(&mut add);
            self.inferred_tokens = self.inferred_tokens + self.out_tokens.len();
            self.out_tokens.clear();
            proof {
                vstd::utf8::valid_utf8_concat(old(self).text@, decoded@);
                assert(self.emitted@.skip(self.emitted@.len() - 0) =~= Seq::<u16>::empty());
                assert(self.committed() =~= self.emitted@);
            }
            true
        } else {
            false
        }
    }

    /// Closes the generation and hands the response out.
    pub fn finish(self) -> (r: GenOutput)
        requires
            self.wf(),
        ensures
            r.text@ == self.text@,
            r.last_token == self.last_token,
            r.tokens_emitted == self.inferred_tokens,
            valid_utf8(r.text@),
    {
        GenOutput {
            text: self.text,
            last_token: self.last_token,
            tokens_emitted: self.inferred_tokens,
        }
    }
}

/// Every committed generation's text is a valid UTF-8 encoding, and what it
/// decodes is exactly the committed prefix of the emitted token sequence:
/// the still-buffered tokens are the remaining tail, so text never gets
/// ahead of the tokens that produced it.
pub proof fn lemma_text_tracks_emitted_prefix(g: GenLoop)
    requires
        g.wf(),
    ensures
        valid_utf8(g.text@),
        g.emitted@ == g.committed() + g.out_tokens@,
        g.committed().len() == g.inferred_tokens,
{
    let k = g.emitted@.len() - g.out_tokens@.len();
    assert(g.emitted@ =~= g.emitted@.take(k) + g.emitted@.skip(k));
}

} // verus!
