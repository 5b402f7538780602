//! Where the notice of a fresh tag reached the members who own the tagged
//! account, and the staff-log line that reports it.

use vstd::prelude::*;
use crate::review_text::{mentions, mentions_text};
use crate::text::{chars_of, decimal, decimal_chars, join, push_chars, push_str, str_eq, string_of, trim_chars, trimmed};

verus! {

/// Where the tag notice ended up for each member who has the tagged account
/// linked.
pub struct NoticeDelivery {
    not_notifiable: bool,
    dmed: Vec<u64>,
    pinged: Vec<u64>,
    queued: Vec<u64>,
}

impl NoticeDelivery {
    /// The tag type warrants no notice.
    pub closed spec fn spec_not_notifiable(&self) -> bool {
        self.not_notifiable
    }

    /// Members who got their DM.
    pub closed spec fn spec_dmed(&self) -> Seq<u64> {
        self.dmed@
    }

    /// Members with DMs closed who are in the home guild.
    pub closed spec fn spec_pinged(&self) -> Seq<u64> {
        self.pinged@
    }

    /// Members with DMs closed who are not in the server.
    pub closed spec fn spec_queued(&self) -> Seq<u64> {
        self.queued@
    }

    /// A delivery that reached nobody yet.
    pub fn new() -> (d: Self)
        ensures
            !d.spec_not_notifiable(),
            d.spec_dmed().len() == 0,
            d.spec_pinged().len() == 0,
            d.spec_queued().len() == 0,
    {
        NoticeDelivery { not_notifiable: false, dmed: Vec::new(), pinged: Vec::new(), queued: Vec::new() }
    }

    /// The delivery of a tag type that warrants no notice.
    pub fn not_notifiable() -> (d: Self)
        ensures
            d.spec_not_notifiable(),
            d.spec_dmed().len() == 0,
            d.spec_pinged().len() == 0,
            d.spec_queued().len() == 0,
    {
        NoticeDelivery { not_notifiable: true, dmed: Vec::new(), pinged: Vec::new(), queued: Vec::new() }
    }

    /// Files one owner: reached by DM, else pinged when in the home guild,
    /// else queued for their next command.
    pub fn record(&mut self, user: u64, dm_sent: bool, in_home_guild: bool)
        ensures
            final(self).spec_not_notifiable() == old(self).spec_not_notifiable(),
            dm_sent ==> final(self).spec_dmed() == old(self).spec_dmed().push(user)
                && final(self).spec_pinged() == old(self).spec_pinged()
                && final(self).spec_queued() == old(self).spec_queued(),
            !dm_sent && in_home_guild ==> final(self).spec_pinged() == old(self).spec_pinged().push(user)
                && final(self).spec_dmed() == old(self).spec_dmed()
                && final(self).spec_queued() == old(self).spec_queued(),
            !dm_sent && !in_home_guild ==> final(self).spec_queued() == old(self).spec_queued().push(user)
                && final(self).spec_dmed() == old(self).spec_dmed()
                && final(self).spec_pinged() == old(self).spec_pinged(),
    {
        if dm_sent {
            self.dmed.push(user);
        } else if in_home_guild {
            self.pinged.push(user);
        } else {
            self.queued.push(user);
        }
    }

    /// Members to mention on the blacklist post because DMs did not reach them.
    pub fn pings(&self) -> (p: &Vec<u64>)
        ensures
            p@ == self.spec_pinged(),
    {
        &self.pinged
    }

    /// Nobody owns the account.
    pub fn no_owner(&self) -> (r: bool)
        ensures
            r == (self.spec_dmed().len() == 0 && self.spec_pinged().len() == 0 && self.spec_queued().len() == 0),
    {
        self.dmed.len() == 0 && self.pinged.len() == 0 && self.queued.len() == 0
    }

    /// The staff-log lines of a delivery.
    pub open spec fn log_lines(dmed: Seq<u64>, pinged: Seq<u64>, queued: Seq<u64>) -> Seq<Seq<char>> {
        (if dmed.len() > 0 { seq!["-# Player notice: DM delivered to "@ + mentions_text(dmed)] } else { seq![] })
            + (if pinged.len() > 0 {
                seq!["-# Player notice: DMs closed for "@ + mentions_text(pinged) + ", pinged in server and queued for next command"@]
            } else {
                seq![]
            })
            + (if queued.len() > 0 {
                seq!["-# Player notice: DMs closed for "@ + mentions_text(queued) + ", queued for next command"@]
            } else {
                seq![]
            })
    }

    /// The staff-log summary of a delivery.
    pub open spec fn log_text(self) -> Seq<char> {
        if self.spec_not_notifiable() {
            "-# Player notice: not sent for this tag type"@
        } else if self.spec_dmed().len() == 0 && self.spec_pinged().len() == 0 && self.spec_queued().len() == 0 {
            "-# Player notice: not registered with Urchin, nothing sent"@
        } else {
            join(Self::log_lines(self.spec_dmed(), self.spec_pinged(), self.spec_queued()), "\n"@)
        }
    }

    /// Staff-log summary, so mods can see whether the tagged player heard
    /// about it and which accounts were reached.
    pub fn log_line(&self) -> (r: String)
        ensures
            r@ == self.log_text(),
    {
        if self.not_notifiable {
            let v = chars_of("-# Player notice: not sent for this tag type");
            return string_of(&v);
        }
        if self.no_owner() {
            let v = chars_of("-# Player notice: not registered with Urchin, nothing sent");
            return string_of(&v);
        }
        let mut lines: Vec<String> = Vec::new();
        if self.dmed.len() > 0 {
            let mut v = chars_of("-# Player notice: DM delivered to ");
            let m = mentions(&self.dmed);
            push_str(&mut v, m.as_str());
            lines.push(string_of(&v));
        }
        if self.pinged.len() > 0 {
            let mut v = chars_of("-# Player notice: DMs closed for ");
            let m = mentions(&self.pinged);
            push_str(&mut v, m.as_str());
            push_str(&mut v, ", pinged in server and queued for next command");
            lines.push(string_of(&v));
        }
        if self.queued.len() > 0 {
            let mut v = chars_of("-# Player notice: DMs closed for ");
            let m = mentions(&self.queued);
            push_str(&mut v, m.as_str());
            push_str(&mut v, ", queued for next command");
            lines.push(string_of(&v));
        }
        assert(lines.deep_view() =~= Self::log_lines(self.dmed@, self.pinged@, self.queued@));
        crate::text::join_strings(&lines, "\n")
    }
}

/// Whether a tag of type `tag_type` is announced to the tagged player; a
/// request for replays is not an accusation to appeal.
pub fn notice_warranted(tag_type: Option<&str>) -> (r: bool)
    ensures
        r == (match tag_type {
            Some(t) => t@ != "replays_needed"@,
            None => false,
        }),
{
    match tag_type {
        Some(t) => !str_eq(t, "replays_needed"),
        None => false,
    }
}

/// The reason quoted in a notice: trimmed, backticks turned into quotes, or
/// a stock phrase when empty.
pub open spec fn notice_reason(reason: Seq<char>) -> Seq<char> {
    let t = trimmed(reason);
    if t.len() == 0 {
        "No reason provided"@
    } else {
        Seq::new(t.len(), |i: int| if t[i] == '`' { '\'' } else { t[i] })
    }
}

/// The reason quoted in a notice.
pub fn reason_text(reason: Option<&str>) -> (r: String)
    ensures
        r@ == notice_reason(match reason { Some(s) => s@, None => Seq::<char>::empty() }),
{
    let raw = match reason {
        Some(s) => chars_of(s),
        None => Vec::new(),
    };
    let t = trim_chars(&raw);
    if t.len() == 0 {
        let v = chars_of("No reason provided");
        return string_of(&v);
    }
    let mut out: Vec<char> = Vec::new();
    let mut i: usize = 0;
    while i < t.len()
        invariant
            i <= t.len(),
            out@ == Seq::new(i as nat, |j: int| if t@[j] == '`' { '\'' } else { t@[j] }),
        decreases t.len() - i,
    {
        let c = t[i];
        out.push(if c == '`' { '\'' } else { c });
        assert(out@ =~= Seq::new((i + 1) as nat, |j: int| if t@[j] == '`' { '\'' } else { t@[j] }));
        i = i + 1;
    }
    string_of(&out)
}


/// The close of an appeal notice, after the tag detail.
pub open spec fn appeal_closing() -> Seq<char> {
    "`.\n\nIf you believe this tag is false, please file an appeal immediately.\n\n**How to File an Appeal**:\n1. Access our official ticket system via Discord at https://discord.com/channels/1339318572069158962/1342235914746986556.\n2. Select **Tag** from the menu.\n3. Provide relevant details, documentation, or context supporting your request for removal or adjustment.\n\nWe apologise for any disruption this notice may cause. Our goal remains the preservation of accuracy of tags, and we appreciate your cooperation throughout this process."@
}

/// The direct message that tells an account's owner about a tag and how to appeal it.
pub open spec fn appeal_text(user_id: u64, username: Seq<char>, uuid: Seq<char>, detail: Seq<char>) -> Seq<char> {
    "Dear <@"@ + decimal(user_id as nat) + ">,\nThis message is to inform you that your account `"@ + username + "` (`"@
        + uuid + "`) has been placed on the Urchin Blacklist Network for `"@ + detail + appeal_closing()
}

/// Writes the appeal notice for the owner `user_id` of account `username`
/// (`uuid`), tagged with `detail`.
pub fn appeal_body(user_id: u64, username: &str, uuid: &str, detail: &str) -> (r: String)
    ensures
        r@ == appeal_text(user_id, username@, uuid@, detail@),
{
    let mut out: Vec<char> = Vec::new();
    push_str(&mut out, "Dear <@");
    let d = decimal_chars(user_id);
    push_chars(&mut out, &d);
    push_str(&mut out, ">,\nThis message is to inform you that your account `");
    push_str(&mut out, username);
    push_str(&mut out, "` (`");
    push_str(&mut out, uuid);
    push_str(&mut out, "`) has been placed on the Urchin Blacklist Network for `");
    push_str(&mut out, detail);
    push_str(&mut out, "`.\n\nIf you believe this tag is false, please file an appeal immediately.\n\n**How to File an Appeal**:\n1. Access our official ticket system via Discord at https://discord.com/channels/1339318572069158962/1342235914746986556.\n2. Select **Tag** from the menu.\n3. Provide relevant details, documentation, or context supporting your request for removal or adjustment.\n\nWe apologise for any disruption this notice may cause. Our goal remains the preservation of accuracy of tags, and we appreciate your cooperation throughout this process.");
    string_of(&out)
}

} // verus!
