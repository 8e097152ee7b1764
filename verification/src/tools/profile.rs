//! Remembering the user's and the agent's names: which names a call gives, how
//! they change the settings, and the report.
use vstd::prelude::*;

use crate::text::{push_str, to_string, trim};

verus! {

/// Saves the user's or the agent's name.
pub struct UpdateProfile;

impl UpdateProfile {
    pub fn name(&self) -> (r: &'static str)
        ensures
            r@ == "update_profile"@,
    {
        "update_profile"
    }

    pub fn description(&self) -> (r: &'static str)
        ensures
            r@ == crate::tools::tool_description(crate::tools::ToolKind::UpdateProfile),
    {
        "대화에서 알게 된 사용자 이름 또는 나(에이전트)의 이름을 저장한다. 이름을 새로 알게 되거나 바뀌면 즉시 호출."
    }
}

/// A name argument, trimmed; an absent or blank one gives nothing.
pub open spec fn given_name(arg: Option<Seq<char>>) -> Option<Seq<char>> {
    match arg {
        Some(s) => if trim(s).len() == 0 {
            None
        } else {
            Some(trim(s))
        },
        None => None,
    }
}

/// The names a call saves.
pub struct ProfileUpdate {
    pub user: Option<String>,
    pub agent: Option<String>,
}

fn given(arg: Option<&str>) -> (r: Option<String>)
    ensures
        crate::models::opt_view(r) == given_name(crate::tools::image::opt_str_view(arg)),
{
    match arg {
        Some(s) => {
            let t = crate::text::trim_str(s);
            if crate::history::char_count(t.as_str()) == 0 {
                None
            } else {
                Some(t)
            }
        },
        None => None,
    }
}

impl ProfileUpdate {
    /// The names of an `update_profile` call; a call that gives neither is refused.
    pub fn from_args(user_name: Option<&str>, agent_name: Option<&str>) -> (r: Result<
        ProfileUpdate,
        String,
    >)
        ensures
            match r {
                Ok(u) => crate::models::opt_view(u.user) == given_name(
                    crate::tools::image::opt_str_view(user_name),
                ) && crate::models::opt_view(u.agent) == given_name(
                    crate::tools::image::opt_str_view(agent_name),
                ) && (u.user is Some || u.agent is Some),
                Err(e) => given_name(crate::tools::image::opt_str_view(user_name)) is None
                    && given_name(crate::tools::image::opt_str_view(agent_name)) is None && e@
                    == "user_name 또는 agent_name 중 하나는 필요함"@,
            },
    {
        let user = given(user_name);
        let agent = given(agent_name);
        if user.is_none() && agent.is_none() {
            return Err(to_string("user_name 또는 agent_name 중 하나는 필요함"));
        }
        Ok(ProfileUpdate { user, agent })
    }

    /// Writes the given names into the settings; a name not given is kept.
    pub fn apply(&self, user_name: &mut String, agent_name: &mut String)
        ensures
            final(user_name)@ == match self.user {
                Some(u) => u@,
                None => old(user_name)@,
            },
            final(agent_name)@ == match self.agent {
                Some(a) => a@,
                None => old(agent_name)@,
            },
    {
        if let Some(u) = &self.user {
            *user_name = to_string(u.as_str());
        }
        if let Some(a) = &self.agent {
            *agent_name = to_string(a.as_str());
        }
    }

    /// The report of the saved names.
    pub fn report(&self) -> (r: String)
        ensures
            r@ == match (self.user, self.agent) {
                (Some(u), Some(a)) => "사용자 이름 '"@ + u@ + "', 내 이름 '"@ + a@ + "'"@,
                (Some(u), None) => "사용자 이름 '"@ + u@ + "'"@,
                (None, Some(a)) => "내 이름 '"@ + a@ + "'"@,
                (None, None) => Seq::<char>::empty(),
            } + " 저장 완료. 앞으로 이 이름을 기억한다."@,
    {
        let mut r = String::new();
        match (&self.user, &self.agent) {
            (Some(u), Some(a)) => {
                push_str(&mut r, "사용자 이름 '");
                push_str(&mut r, u.as_str());
                push_str(&mut r, "', 내 이름 '");
                push_str(&mut r, a.as_str());
                push_str(&mut r, "'");
            },
            (Some(u), None) => {
                push_str(&mut r, "사용자 이름 '");
                push_str(&mut r, u.as_str());
                push_str(&mut r, "'");
            },
            (None, Some(a)) => {
                push_str(&mut r, "내 이름 '");
                push_str(&mut r, a.as_str());
                push_str(&mut r, "'");
            },
            (None, None) => {},
        }
        push_str(&mut r, " 저장 완료. 앞으로 이 이름을 기억한다.");
        r
    }
}

} // verus!
