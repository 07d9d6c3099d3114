//! Paper or live, and the interlock in front of live trading.

use vstd::prelude::*;
use crate::text::{joined3, same_text, to_upper, trim};

verus! {

/// How the service runs.
#[derive(Clone, Copy, Debug, PartialEq, Eq, Hash, Structural)]
pub enum ServiceMode {
    /// Orders are matched locally.
    Paper,
    /// Orders go to the exchange.
    Live,
}

impl Default for ServiceMode {
    fn default() -> (r: Self)
        ensures
            r is Paper,
    {
        ServiceMode::Paper
    }
}

impl ServiceMode {
    pub fn is_live(self) -> (r: bool)
        ensures
            r == (self is Live),
    {
        matches!(self, ServiceMode::Live)
    }

    pub fn allows_real_orders(self) -> (r: bool)
        ensures
            r == (self is Live),
    {
        matches!(self, ServiceMode::Live)
    }

    /// The mode that a text names: the exact word, in any case, with white space around it.
    pub open spec fn named(s: Seq<char>) -> Option<ServiceMode> {
        let word = crate::text::uppercased(crate::text::trimmed(s));
        if word == "PAPER"@ {
            Some(ServiceMode::Paper)
        } else if word == "LIVE"@ {
            Some(ServiceMode::Live)
        } else {
            None
        }
    }

    /// Reads a mode. Nothing but the two words is accepted; the error carries the text as it
    /// was given, without the white space around it.
    pub fn parse(s: &str) -> (r: Result<Self, ModeParseError>)
        ensures
            match Self::named(s@) {
                Some(m) => r == Ok::<Self, ModeParseError>(m),
                None => r is Err && r->Err_0.input@ == crate::text::trimmed(s@),
            },
    {
        let input = trim(s);
        let word = to_upper(input.as_str());
        if same_text(word.as_str(), "PAPER") {
            Ok(ServiceMode::Paper)
        } else if same_text(word.as_str(), "LIVE") {
            Ok(ServiceMode::Live)
        } else {
            Err(ModeParseError { input })
        }
    }

    /// The name shown to users.
    pub fn label(self) -> (r: &'static str)
        ensures
            r@ == (match self {
                ServiceMode::Paper => "模拟盘"@,
                ServiceMode::Live => "实盘"@,
            }),
    {
        match self {
            ServiceMode::Paper => "模拟盘",
            ServiceMode::Live => "实盘",
        }
    }
}

/// The two words are read back as the modes they name.
pub proof fn law_mode_words()
    ensures
        ServiceMode::named("PAPER"@) == Some(ServiceMode::Paper),
        ServiceMode::named("LIVE"@) == Some(ServiceMode::Live),
        forall|s: Seq<char>|
            #[trigger] ServiceMode::named(s) == Some(ServiceMode::Live)
                ==> crate::text::uppercased(crate::text::trimmed(s)) == "LIVE"@,
{
    reveal_strlit("PAPER");
    reveal_strlit("LIVE");
    assert("PAPER"@ != "LIVE"@) by {
        assert("PAPER"@.len() != "LIVE"@.len());
    }
    assert(crate::text::trimmed("PAPER"@) =~= "PAPER"@);
    assert(crate::text::trimmed("LIVE"@) =~= "LIVE"@);
    assert(crate::text::uppercased("PAPER"@) =~= "PAPER"@);
    assert(crate::text::uppercased("LIVE"@) =~= "LIVE"@);
}

/// A text that names no mode.
#[derive(Debug, PartialEq, Eq)]
pub struct ModeParseError {
    pub input: String,
}

impl ModeParseError {
    /// The message for an operator.
    pub fn message(&self) -> (r: String)
        ensures
            r@ == "无法识别的模式「"@ + self.input@
                + "」：只接受 PAPER 或 LIVE（大小写不敏感）"@,
    {
        joined3(
            "无法识别的模式「",
            self.input.as_str(),
            "」：只接受 PAPER 或 LIVE（大小写不敏感）",
        )
    }
}

/// The interlock in front of live trading. Orders may go out only while the user stream is
/// connected, the account is reconciled and an operator has armed the interlock; losing either of
/// the first two disarms it, and nothing but an operator arms it again.
#[derive(Clone, Copy, Debug, PartialEq, Eq)]
pub struct LiveSafety {
    user_stream_connected: bool,
    account_reconciled: bool,
    armed: bool,
}

impl LiveSafety {
    /// Whether fills are reported.
    pub closed spec fn connected(&self) -> bool {
        self.user_stream_connected
    }

    /// Whether local positions agree with the exchange's.
    pub closed spec fn reconciled(&self) -> bool {
        self.account_reconciled
    }

    /// Whether an operator has armed the interlock.
    pub closed spec fn is_set(&self) -> bool {
        self.armed
    }

    /// The interlock is armed only where both other conditions hold.
    #[verifier::type_invariant]
    pub open spec fn wf(&self) -> bool {
        self.is_set() ==> self.connected() && self.reconciled()
    }

    /// An interlock with nothing established.
    pub fn new() -> (r: Self)
        ensures
            !r.connected(),
            !r.reconciled(),
            !r.is_set(),
    {
        LiveSafety { user_stream_connected: false, account_reconciled: false, armed: false }
    }

    pub fn mark_user_stream_connected(&mut self, connected: bool)
        ensures
            final(self).connected() == connected,
            final(self).reconciled() == old(self).reconciled(),
            final(self).is_set() == (old(self).is_set() && connected),
    {
        proof {
            use_type_invariant(&*self);
        }
        *self = LiveSafety {
            user_stream_connected: connected,
            account_reconciled: self.account_reconciled,
            armed: self.armed && connected,
        };
    }

    pub fn mark_account_reconciled(&mut self, reconciled: bool)
        ensures
            final(self).connected() == old(self).connected(),
            final(self).reconciled() == reconciled,
            final(self).is_set() == (old(self).is_set() && reconciled),
    {
        proof {
            use_type_invariant(&*self);
        }
        *self = LiveSafety {
            user_stream_connected: self.user_stream_connected,
            account_reconciled: reconciled,
            armed: self.armed && reconciled,
        };
    }

    /// Arms the interlock where both other conditions hold, and says whether they do.
    pub fn arm(&mut self) -> (r: bool)
        ensures
            r == (old(self).connected() && old(self).reconciled()),
            final(self).connected() == old(self).connected(),
            final(self).reconciled() == old(self).reconciled(),
            final(self).is_set() == (old(self).is_set() || r),
    {
        if self.user_stream_connected && self.account_reconciled {
            *self = LiveSafety {
                user_stream_connected: true,
                account_reconciled: true,
                armed: true,
            };
            true
        } else {
            false
        }
    }

    /// Disarms the interlock.
    pub fn disarm(&mut self)
        ensures
            final(self).connected() == old(self).connected(),
            final(self).reconciled() == old(self).reconciled(),
            !final(self).is_set(),
    {
        *self = LiveSafety {
            user_stream_connected: self.user_stream_connected,
            account_reconciled: self.account_reconciled,
            armed: false,
        };
    }

    /// Whether an order may be sent: exactly while the interlock is armed, which it is only where
    /// both other conditions hold.
    pub fn can_submit(&self) -> (r: bool)
        ensures
            r == (self.connected() && self.reconciled() && self.is_set()),
            r == self.is_set(),
    {
        proof {
            use_type_invariant(self);
        }
        self.user_stream_connected && self.account_reconciled && self.armed
    }

    pub fn is_armed(&self) -> (r: bool)
        ensures
            r == self.is_set(),
    {
        self.armed
    }

    pub fn user_stream_connected(&self) -> (r: bool)
        ensures
            r == self.connected(),
    {
        self.user_stream_connected
    }

    pub fn account_reconciled(&self) -> (r: bool)
        ensures
            r == self.reconciled(),
    {
        self.account_reconciled
    }

    /// What stands in the way of trading.
    pub open spec fn blocks(&self) -> Seq<Seq<char>> {
        let a = if !self.connected() {
            seq!["用户数据流未连接——收不到成交回报"@]
        } else {
            seq![]
        };
        let b = if !self.reconciled() {
            seq!["账户未对账——本地持仓可能与交易所不一致"@]
        } else {
            seq![]
        };
        let c = if !self.is_set() {
            seq!["未开启交易（ARM）"@]
        } else {
            seq![]
        };
        a + b + c
    }

    /// The reasons why no order may be sent, for display.
    pub fn blocking_reasons(&self) -> (r: Vec<&'static str>)
        ensures
            r@.map_values(|s: &'static str| s@) == self.blocks(),
            r@.len() == 0 <==> self.connected() && self.reconciled() && self.is_set(),
    {
        let mut v: Vec<&'static str> = Vec::new();
        if !self.user_stream_connected {
            v.push("用户数据流未连接——收不到成交回报");
        }
        if !self.account_reconciled {
            v.push("账户未对账——本地持仓可能与交易所不一致");
        }
        if !self.armed {
            v.push("未开启交易（ARM）");
        }
        assert(v@.map_values(|s: &'static str| s@) =~= self.blocks());
        v
    }
}

impl Default for LiveSafety {
    fn default() -> (r: Self)
        ensures
            !r.connected(),
            !r.reconciled(),
            !r.is_set(),
    {
        LiveSafety::new()
    }
}

} // verus!
