//! The bookkeeping of quota resets.

use crate::outside::{current_millis, format_uuid, is_random_uuid, random_uuid, uuid_text};
use vstd::prelude::*;

verus! {

/// The quotient of `a` by a positive `b`, rounded towards zero.
pub open spec fn truncated_quotient(a: int, b: int) -> int {
    if a >= 0 {
        a / b
    } else {
        -((-a) / b)
    }
}

/// The share of the quota that was used, in percent: `used / total * 100`
/// with the fraction dropped, kept within the 32-bit range; 0 where there is
/// no quota.
pub open spec fn usage_percent_spec(used: int, total: int) -> int {
    if total > 0 {
        let percent = truncated_quotient(used * 100, total);
        if percent > i32::MAX {
            i32::MAX as int
        } else if percent < i32::MIN {
            i32::MIN as int
        } else {
            percent
        }
    } else {
        0
    }
}

/// Computes the share of the quota that was used, in percent.
pub fn usage_percent(used_quota: i32, total_quota: i32) -> (percent: i32)
    ensures
        percent == usage_percent_spec(used_quota as int, total_quota as int),
{
    if total_quota <= 0 {
        return 0;
    }
    let total: u64 = total_quota as u64;
    if used_quota >= 0 {
        let scaled: u64 = (used_quota as u64) * 100;
        let quotient: u64 = scaled / total;
        if quotient > 0x7fff_ffff {
            i32::MAX
        } else {
            quotient as i32
        }
    } else {
        let magnitude: u64 = (-(used_quota as i64)) as u64;
        let scaled: u64 = magnitude * 100;
        let quotient: u64 = scaled / total;
        if quotient > 0x8000_0000 {
            i32::MIN
        } else {
            (-(quotient as i64)) as i32
        }
    }
}

/// One reset of an account's quota.
#[derive(Debug, PartialEq, Eq)]
pub struct ResetRecord {
    pub id: String,
    pub config_id: String,
    pub account_id: String,
    pub account_email: String,
    pub account_nickname: Option<String>,
    pub master_email: String,
    pub used_quota_before: i32,
    pub total_quota: i32,
    pub usage_percent: i32,
    pub auto_joined: bool,
    /// Milliseconds since the epoch.
    pub reset_at: i64,
}

/// A reset as plain values.
pub struct ResetRecordView {
    pub id: Seq<char>,
    pub config_id: Seq<char>,
    pub account_id: Seq<char>,
    pub account_email: Seq<char>,
    pub account_nickname: Option<Seq<char>>,
    pub master_email: Seq<char>,
    pub used_quota_before: i32,
    pub total_quota: i32,
    pub usage_percent: i32,
    pub auto_joined: bool,
    pub reset_at: i64,
}

impl View for ResetRecord {
    type V = ResetRecordView;

    open spec fn view(&self) -> ResetRecordView {
        ResetRecordView {
            id: self.id@,
            config_id: self.config_id@,
            account_id: self.account_id@,
            account_email: self.account_email@,
            account_nickname: self.account_nickname.deep_view(),
            master_email: self.master_email@,
            used_quota_before: self.used_quota_before,
            total_quota: self.total_quota,
            usage_percent: self.usage_percent,
            auto_joined: self.auto_joined,
            reset_at: self.reset_at,
        }
    }
}

impl ResetRecord {
    /// The record of a reset that happens now, under a fresh random
    /// identifier. The usage in percent is computed from the two quotas.
    pub fn new(
        config_id: String,
        account_id: String,
        account_email: String,
        account_nickname: Option<String>,
        master_email: String,
        used_quota_before: i32,
        total_quota: i32,
        auto_joined: bool,
    ) -> (record: Self)
        ensures
            exists|id: u128| is_random_uuid(id) && record.id@ == #[trigger] uuid_text(id),
            record@ == (ResetRecordView {
                id: record.id@,
                config_id: config_id@,
                account_id: account_id@,
                account_email: account_email@,
                account_nickname: account_nickname.deep_view(),
                master_email: master_email@,
                used_quota_before,
                total_quota,
                usage_percent: usage_percent_spec(used_quota_before as int, total_quota as int) as i32,
                auto_joined,
                reset_at: record.reset_at,
            }),
    {
        let id = format_uuid(random_uuid());
        let reset_at = current_millis();
        ResetRecord::with_identity(
            id,
            reset_at,
            config_id,
            account_id,
            account_email,
            account_nickname,
            master_email,
            used_quota_before,
            total_quota,
            auto_joined,
        )
    }

    /// The record of a reset at `reset_at`, under the identifier `id`.
    pub fn with_identity(
        id: String,
        reset_at: i64,
        config_id: String,
        account_id: String,
        account_email: String,
        account_nickname: Option<String>,
        master_email: String,
        used_quota_before: i32,
        total_quota: i32,
        auto_joined: bool,
    ) -> (record: Self)
        ensures
            record@ == (ResetRecordView {
                id: id@,
                config_id: config_id@,
                account_id: account_id@,
                account_email: account_email@,
                account_nickname: account_nickname.deep_view(),
                master_email: master_email@,
                used_quota_before,
                total_quota,
                usage_percent: usage_percent_spec(used_quota_before as int, total_quota as int) as i32,
                auto_joined,
                reset_at,
            }),
    {
        ResetRecord {
            id,
            config_id,
            account_id,
            account_email,
            account_nickname,
            master_email,
            used_quota_before,
            total_quota,
            usage_percent: usage_percent(used_quota_before, total_quota),
            auto_joined,
            reset_at,
        }
    }
}

/// What is known of one account's resets.
#[derive(Debug, PartialEq, Eq)]
pub struct AccountResetStats {
    pub account_id: String,
    pub account_email: String,
    pub account_nickname: Option<String>,
    pub reset_count: i32,
    pub total_used_quota: i64,
    /// Milliseconds since the epoch.
    pub last_reset_at: Option<i64>,
}

/// The statistics as plain values.
pub struct AccountResetStatsView {
    pub account_id: Seq<char>,
    pub account_email: Seq<char>,
    pub account_nickname: Option<Seq<char>>,
    pub reset_count: i32,
    pub total_used_quota: i64,
    pub last_reset_at: Option<i64>,
}

impl View for AccountResetStats {
    type V = AccountResetStatsView;

    open spec fn view(&self) -> AccountResetStatsView {
        AccountResetStatsView {
            account_id: self.account_id@,
            account_email: self.account_email@,
            account_nickname: self.account_nickname.deep_view(),
            reset_count: self.reset_count,
            total_used_quota: self.total_used_quota,
            last_reset_at: self.last_reset_at,
        }
    }
}

impl AccountResetStats {
    /// The statistics of an account that was never reset.
    pub fn new(account_id: String, account_email: String, account_nickname: Option<String>) -> (stats:
        Self)
        ensures
            stats@ == (AccountResetStatsView {
                account_id: account_id@,
                account_email: account_email@,
                account_nickname: account_nickname.deep_view(),
                reset_count: 0,
                total_used_quota: 0,
                last_reset_at: None,
            }),
    {
        AccountResetStats {
            account_id,
            account_email,
            account_nickname,
            reset_count: 0,
            total_used_quota: 0,
            last_reset_at: None,
        }
    }

    /// Whether one more reset that used `used_quota` can be counted without
    /// leaving the range of the counters.
    pub open spec fn can_add(&self, used_quota: i32) -> bool {
        &&& self.reset_count < i32::MAX
        &&& i64::MIN <= self.total_used_quota + used_quota <= i64::MAX
    }

    /// Counts one more reset, which used `used_quota` and happened at
    /// `reset_at`.
    pub fn add_reset(&mut self, used_quota: i32, reset_at: i64)
        requires
            old(self).can_add(used_quota),
        ensures
            final(self)@ == (AccountResetStatsView {
                reset_count: (old(self).reset_count + 1) as i32,
                total_used_quota: (old(self).total_used_quota + used_quota) as i64,
                last_reset_at: Some(reset_at),
                ..old(self)@
            }),
    {
        self.reset_count = self.reset_count + 1;
        self.total_used_quota = self.total_used_quota + used_quota as i64;
        self.last_reset_at = Some(reset_at);
    }

    /// Counts one more reset where the counters have room for it, and says
    /// whether it did.
    pub fn try_add_reset(&mut self, used_quota: i32, reset_at: i64) -> (added: bool)
        ensures
            added == old(self).can_add(used_quota),
            added ==> final(self)@ == (AccountResetStatsView {
                reset_count: (old(self).reset_count + 1) as i32,
                total_used_quota: (old(self).total_used_quota + used_quota) as i64,
                last_reset_at: Some(reset_at),
                ..old(self)@
            }),
            !added ==> *final(self) == *old(self),
    {
        if self.reset_count < i32::MAX && self.total_used_quota.checked_add(used_quota as i64).is_some() {
            self.add_reset(used_quota, reset_at);
            true
        } else {
            false
        }
    }
}

} // verus!
