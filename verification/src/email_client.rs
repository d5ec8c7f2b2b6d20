//! The outbound email transport, as the pipeline sees it.
//!
//! The real transport is an outside collaborator that may time out,
//! reject or duplicate; the pipeline only relies on the capability
//! `send(to, subject, html, text) -> Result<(), TransientError>`. This
//! model records every attempted send — which is exactly what the
//! delivery properties speak about — and reports a transient failure
//! whenever the caller has armed one, so tests can drive both outcomes
//! deterministically. Performing real network delivery is the embedding
//! application's concern.

use vstd::prelude::*;

use crate::domain::SubscriberEmail;

verus! {

/// A transport failure that a retry might cure: a timeout, a 5xx, a
/// dropped connection.
#[derive(Debug)]
pub struct TransientError {
    pub reason: String,
}

/// One attempted delivery.
#[derive(Debug)]
pub struct SentEmail {
    pub recipient: String,
    pub subject: String,
    pub html_content: String,
    pub text_content: String,
}

/// Mathematical view of an attempted delivery.
#[verifier::ext_equal]
pub struct SentEmailV {
    pub recipient: Seq<char>,
    pub subject: Seq<char>,
    pub html_content: Seq<char>,
    pub text_content: Seq<char>,
}

impl View for SentEmail {
    type V = SentEmailV;

    open spec fn view(&self) -> SentEmailV {
        SentEmailV {
            recipient: self.recipient@,
            subject: self.subject@,
            html_content: self.html_content@,
            text_content: self.text_content@,
        }
    }
}

/// The transport capability: a log of attempted sends, and a switch that
/// makes every send report a transient failure.
#[derive(Debug)]
pub struct EmailClient {
    pub sent: Vec<SentEmail>,
    pub fail_sends: bool,
}

/// Mathematical view of the transport.
#[verifier::ext_equal]
pub struct EmailClientV {
    pub sent: Seq<SentEmailV>,
    pub fail_sends: bool,
}

impl View for EmailClient {
    type V = EmailClientV;

    open spec fn view(&self) -> EmailClientV {
        EmailClientV {
            sent: self.sent@.map_values(|e: SentEmail| e@),
            fail_sends: self.fail_sends,
        }
    }
}

impl EmailClient {
    /// A transport that has sent nothing and reports success.
    pub fn new() -> (r: EmailClient)
        ensures
            r@.sent.len() == 0,
            !r@.fail_sends,
    {
        let r = EmailClient { sent: Vec::new(), fail_sends: false };
        proof {
            assert(r@.sent =~= Seq::<SentEmailV>::empty());
        }
        r
    }

    /// Arms or disarms transient failures for the sends that follow.
    pub fn set_fail_sends(&mut self, fail: bool)
        ensures
            final(self)@ == (EmailClientV { fail_sends: fail, ..old(self)@ }),
    {
        self.fail_sends = fail;
        proof {
            assert(self@ =~= (EmailClientV { fail_sends: fail, ..old(self)@ }));
        }
    }

    /// Attempts one delivery. The attempt is recorded whether or not the
    /// transport then reports a transient failure.
    pub fn send_email(
        &mut self,
        recipient: &SubscriberEmail,
        subject: &str,
        html_content: &str,
        text_content: &str,
    ) -> (r: Result<(), TransientError>)
        ensures
            final(self)@ == (EmailClientV {
                sent: old(self)@.sent.push(
                    SentEmailV {
                        recipient: recipient@,
                        subject: subject@,
                        html_content: html_content@,
                        text_content: text_content@,
                    },
                ),
                ..old(self)@
            }),
            r is Err <==> old(self)@.fail_sends,
    {
        self.sent.push(
            SentEmail {
                recipient: recipient.as_str().to_owned(),
                subject: subject.to_owned(),
                html_content: html_content.to_owned(),
                text_content: text_content.to_owned(),
            },
        );
        proof {
            assert(self@.sent =~= old(self)@.sent.push(
                SentEmailV {
                    recipient: recipient@,
                    subject: subject@,
                    html_content: html_content@,
                    text_content: text_content@,
                },
            ));
            assert(self@ =~= (EmailClientV { sent: self@.sent, ..old(self)@ }));
        }
        if self.fail_sends {
            Err(TransientError { reason: String::from_str("the email transport reported a transient failure") })
        } else {
            Ok(())
        }
    }

    /// How many sends were attempted.
    pub fn sent_count(&self) -> (r: usize)
        ensures
            r == self@.sent.len(),
    {
        self.sent.len()
    }

    /// The attempted sends, oldest first.
    pub fn sent_emails(&self) -> (r: &Vec<SentEmail>)
        ensures
            r@.map_values(|e: SentEmail| e@) == self@.sent,
    {
        &self.sent
    }
}

} // verus!
