//! The permissions of a process or worker, one per flag, and how a
//! worker's permissions are derived from its parent's.
use vstd::prelude::*;

use crate::child::{child_outcome, ChildPermissionError, ChildUnaryRequest};
use crate::descriptors::{EnvDescriptor, EnvQueryDescriptor, SysDescriptor};
use crate::network::{ImportDescriptor, NetDescriptor};
use crate::paths::{
    AllowRunDescriptor, AllowRunDescriptorParseResult, DenyRunDescriptor, FfiDescriptor, FfiQueryDescriptor,
    ReadDescriptor, ReadQueryDescriptor, RunQueryDescriptor, WriteDescriptor, WriteQueryDescriptor,
};
use crate::perms::{PermissionBroker, PermissionPrompter, PermissionState, UnitPermission};
use crate::unary::{AllowDescriptor, QueryDescriptor, built_from, items_or_empty, new_unary_with_ignore, opt_items, UnaryPermission};

verus! {

/// The permissions of a process or worker, one per flag.
pub struct Permissions {
    pub read: UnaryPermission<ReadDescriptor>,
    pub write: UnaryPermission<WriteDescriptor>,
    pub net: UnaryPermission<NetDescriptor>,
    pub env: UnaryPermission<EnvDescriptor>,
    pub sys: UnaryPermission<SysDescriptor>,
    pub run: UnaryPermission<AllowRunDescriptor>,
    pub ffi: UnaryPermission<FfiDescriptor>,
    pub import: UnaryPermission<ImportDescriptor>,
}

/// A permission that grants everything outright: no list, no denial, no
/// prompting.
pub open spec fn grants_everything<A: AllowDescriptor>(p: UnaryPermission<A>) -> bool {
    &&& p.granted_global
    &&& !p.flag_denied_global
    &&& !p.flag_ignored_global
    &&& !p.prompt_denied_global
    &&& !p.prompt
    &&& p.descriptors.inner@.len() == 0
    &&& !p.descriptors.has_flag_denied
    &&& !p.descriptors.has_prompt_denied
    &&& !p.descriptors.has_flag_ignored
}

/// One flag's step of deriving a worker's permissions passed, giving some
/// permission.
pub open spec fn stage_ok<A: AllowDescriptor, Q: QueryDescriptor<A>>(
    flag: ChildUnaryRequest<A>,
    before: UnaryPermission<A>,
    after: UnaryPermission<A>,
) -> bool {
    exists|c: UnaryPermission<A>| #[trigger] child_outcome::<A, Q>(flag, before, after, Ok(c))
}

/// How a worker's permission is asked for, flag by flag, with each listed
/// value already parsed.
pub struct ChildPermissionsRequest {
    pub env: ChildUnaryRequest<EnvDescriptor>,
    pub net: ChildUnaryRequest<NetDescriptor>,
    pub ffi: ChildUnaryRequest<FfiDescriptor>,
    pub import: ChildUnaryRequest<ImportDescriptor>,
    pub read: ChildUnaryRequest<ReadDescriptor>,
    pub run: ChildUnaryRequest<AllowRunDescriptor>,
    pub sys: ChildUnaryRequest<SysDescriptor>,
    pub write: ChildUnaryRequest<WriteDescriptor>,
}

impl Permissions {
    /// Every flag grants everything, with nothing denied and no broker to
    /// ask.
    pub open spec fn all_granted_spec(&self, broker_present: bool) -> bool {
        &&& self.read.allow_all_spec(broker_present)
        &&& self.write.allow_all_spec(broker_present)
        &&& self.net.allow_all_spec(broker_present)
        &&& self.env.allow_all_spec(broker_present)
        &&& self.sys.allow_all_spec(broker_present)
        &&& self.run.allow_all_spec(broker_present)
        &&& self.ffi.allow_all_spec(broker_present)
        &&& self.import.allow_all_spec(broker_present)
    }

    pub fn all_granted(&self, broker_present: bool) -> (r: bool)
        ensures
            r == self.all_granted_spec(broker_present),
    {
        self.read.is_allow_all(broker_present)
            && self.write.is_allow_all(broker_present)
            && self.net.is_allow_all(broker_present)
            && self.env.is_allow_all(broker_present)
            && self.sys.is_allow_all(broker_present)
            && self.run.is_allow_all(broker_present)
            && self.ffi.is_allow_all(broker_present)
            && self.import.is_allow_all(broker_present)
    }

    /// Permissions that grant everything.
    pub fn allow_all() -> (r: Permissions)
        ensures
            grants_everything(r.read),
            grants_everything(r.write),
            grants_everything(r.net),
            grants_everything(r.env),
            grants_everything(r.sys),
            grants_everything(r.run),
            grants_everything(r.ffi),
            grants_everything(r.import),
    {
        Permissions {
            read: UnaryPermission::allow_all(),
            write: UnaryPermission::allow_all(),
            net: UnaryPermission::allow_all(),
            env: UnaryPermission::allow_all(),
            sys: UnaryPermission::allow_all(),
            run: UnaryPermission::allow_all(),
            ffi: UnaryPermission::allow_all(),
            import: UnaryPermission::allow_all(),
        }
    }

    /// Every flag given no list: nothing is granted or denied.
    pub open spec fn none_spec(&self, prompt: bool) -> bool {
        &&& built_from(self.read, None, None, None, prompt)
        &&& built_from(self.write, None, None, None, prompt)
        &&& built_from(self.net, None, None, None, prompt)
        &&& built_from(self.env, None, None, None, prompt)
        &&& built_from(self.sys, None, None, None, prompt)
        &&& built_from(self.run, None, None, None, prompt)
        &&& built_from(self.ffi, None, None, None, prompt)
        &&& built_from(self.import, None, None, None, prompt)
    }

    fn none(prompt: bool) -> (r: Permissions)
        ensures
            r.none_spec(prompt),
    {
        Permissions {
            read: new_unary_with_ignore(None, None, None, prompt),
            write: new_unary_with_ignore(None, None, None, prompt),
            net: new_unary_with_ignore(None, None, None, prompt),
            env: new_unary_with_ignore(None, None, None, prompt),
            sys: new_unary_with_ignore(None, None, None, prompt),
            run: new_unary_with_ignore(None, None, None, prompt),
            ffi: new_unary_with_ignore(None, None, None, prompt),
            import: new_unary_with_ignore(None, None, None, prompt),
        }
    }

    /// The permission of one flag given an allow and a deny list.
    pub fn new_unary<A: AllowDescriptor>(
        allow_list: Option<Vec<A>>,
        deny_list: Option<Vec<A::DenyDesc>>,
        prompt: bool,
    ) -> (r: UnaryPermission<A>)
        ensures
            built_from(r, opt_items(allow_list), opt_items(deny_list), None, prompt),
    {
        new_unary_with_ignore(allow_list, deny_list, None, prompt)
    }

    /// The permission of one flag given an allow, a deny and an ignore list.
    pub fn new_unary_with_ignore<A: AllowDescriptor>(
        allow_list: Option<Vec<A>>,
        deny_list: Option<Vec<A::DenyDesc>>,
        ignore_list: Option<Vec<A::DenyDesc>>,
        prompt: bool,
    ) -> (r: UnaryPermission<A>)
        ensures
            built_from(r, opt_items(allow_list), opt_items(deny_list), opt_items(ignore_list), prompt),
    {
        new_unary_with_ignore(allow_list, deny_list, ignore_list, prompt)
    }

    /// The `all` permission: granted when `allow_state` holds, else asked
    /// for; never prompted.
    pub fn new_all(allow_state: bool) -> (r: UnitPermission)
        ensures
            r.name@ == "all"@,
            r.description@ == "all"@,
            r.state == (if allow_state {
                PermissionState::Granted
            } else {
                PermissionState::Prompt
            }),
            !r.prompt,
    {
        UnitPermission {
            name: "all",
            description: "all",
            state: if allow_state {
                PermissionState::Granted
            } else {
                PermissionState::Prompt
            },
            prompt: false,
        }
    }

    /// Permissions that grant nothing and may prompt.
    pub fn none_with_prompt() -> (r: Permissions)
        ensures
            r.none_spec(true),
    {
        Self::none(true)
    }

    /// Permissions that grant nothing and never prompt.
    pub fn none_without_prompt() -> (r: Permissions)
        ensures
            r.none_spec(false),
    {
        Self::none(false)
    }
}

/// What deriving a worker's permissions did: when it succeeded, every flag
/// was derived as `child_outcome` says; when it failed, the flags were
/// taken in the order read, write, import, net, env, sys, run, ffi, every
/// one before the failing flag passed, and the ones after it were not
/// touched.
pub open spec fn permissions_child_outcome(
    request: ChildPermissionsRequest,
    before: Permissions,
    after: Permissions,
    r: Result<Permissions, ChildPermissionError>,
) -> bool {
    match r {
        Ok(c) => {
            &&& child_outcome::<ReadDescriptor, ReadQueryDescriptor>(request.read, before.read, after.read, Ok(c.read))
            &&& child_outcome::<WriteDescriptor, WriteQueryDescriptor>(request.write, before.write, after.write, Ok(c.write))
            &&& child_outcome::<ImportDescriptor, ImportDescriptor>(request.import, before.import, after.import, Ok(c.import))
            &&& child_outcome::<NetDescriptor, NetDescriptor>(request.net, before.net, after.net, Ok(c.net))
            &&& child_outcome::<EnvDescriptor, EnvQueryDescriptor>(request.env, before.env, after.env, Ok(c.env))
            &&& child_outcome::<SysDescriptor, SysDescriptor>(request.sys, before.sys, after.sys, Ok(c.sys))
            &&& child_outcome::<AllowRunDescriptor, RunQueryDescriptor>(request.run, before.run, after.run, Ok(c.run))
            &&& child_outcome::<FfiDescriptor, FfiQueryDescriptor>(request.ffi, before.ffi, after.ffi, Ok(c.ffi))
        },
        Err(e) => {
            ||| (child_outcome::<ReadDescriptor, ReadQueryDescriptor>(request.read, before.read, after.read, Err(e))
                && after.write == before.write
                && after.import == before.import
                && after.net == before.net
                && after.env == before.env
                && after.sys == before.sys
                && after.run == before.run
                && after.ffi == before.ffi)
            ||| (stage_ok::<ReadDescriptor, ReadQueryDescriptor>(request.read, before.read, after.read)
                && child_outcome::<WriteDescriptor, WriteQueryDescriptor>(request.write, before.write, after.write, Err(e))
                && after.import == before.import
                && after.net == before.net
                && after.env == before.env
                && after.sys == before.sys
                && after.run == before.run
                && after.ffi == before.ffi)
            ||| (stage_ok::<ReadDescriptor, ReadQueryDescriptor>(request.read, before.read, after.read)
                && stage_ok::<WriteDescriptor, WriteQueryDescriptor>(request.write, before.write, after.write)
                && child_outcome::<ImportDescriptor, ImportDescriptor>(request.import, before.import, after.import, Err(e))
                && after.net == before.net
                && after.env == before.env
                && after.sys == before.sys
                && after.run == before.run
                && after.ffi == before.ffi)
            ||| (stage_ok::<ReadDescriptor, ReadQueryDescriptor>(request.read, before.read, after.read)
                && stage_ok::<WriteDescriptor, WriteQueryDescriptor>(request.write, before.write, after.write)
                && stage_ok::<ImportDescriptor, ImportDescriptor>(request.import, before.import, after.import)
                && child_outcome::<NetDescriptor, NetDescriptor>(request.net, before.net, after.net, Err(e))
                && after.env == before.env
                && after.sys == before.sys
                && after.run == before.run
                && after.ffi == before.ffi)
            ||| (stage_ok::<ReadDescriptor, ReadQueryDescriptor>(request.read, before.read, after.read)
                && stage_ok::<WriteDescriptor, WriteQueryDescriptor>(request.write, before.write, after.write)
                && stage_ok::<ImportDescriptor, ImportDescriptor>(request.import, before.import, after.import)
                && stage_ok::<NetDescriptor, NetDescriptor>(request.net, before.net, after.net)
                && child_outcome::<EnvDescriptor, EnvQueryDescriptor>(request.env, before.env, after.env, Err(e))
                && after.sys == before.sys
                && after.run == before.run
                && after.ffi == before.ffi)
            ||| (stage_ok::<ReadDescriptor, ReadQueryDescriptor>(request.read, before.read, after.read)
                && stage_ok::<WriteDescriptor, WriteQueryDescriptor>(request.write, before.write, after.write)
                && stage_ok::<ImportDescriptor, ImportDescriptor>(request.import, before.import, after.import)
                && stage_ok::<NetDescriptor, NetDescriptor>(request.net, before.net, after.net)
                && stage_ok::<EnvDescriptor, EnvQueryDescriptor>(request.env, before.env, after.env)
                && child_outcome::<SysDescriptor, SysDescriptor>(request.sys, before.sys, after.sys, Err(e))
                && after.run == before.run
                && after.ffi == before.ffi)
            ||| (stage_ok::<ReadDescriptor, ReadQueryDescriptor>(request.read, before.read, after.read)
                && stage_ok::<WriteDescriptor, WriteQueryDescriptor>(request.write, before.write, after.write)
                && stage_ok::<ImportDescriptor, ImportDescriptor>(request.import, before.import, after.import)
                && stage_ok::<NetDescriptor, NetDescriptor>(request.net, before.net, after.net)
                && stage_ok::<EnvDescriptor, EnvQueryDescriptor>(request.env, before.env, after.env)
                && stage_ok::<SysDescriptor, SysDescriptor>(request.sys, before.sys, after.sys)
                && child_outcome::<AllowRunDescriptor, RunQueryDescriptor>(request.run, before.run, after.run, Err(e))
                && after.ffi == before.ffi)
            ||| (stage_ok::<ReadDescriptor, ReadQueryDescriptor>(request.read, before.read, after.read)
                && stage_ok::<WriteDescriptor, WriteQueryDescriptor>(request.write, before.write, after.write)
                && stage_ok::<ImportDescriptor, ImportDescriptor>(request.import, before.import, after.import)
                && stage_ok::<NetDescriptor, NetDescriptor>(request.net, before.net, after.net)
                && stage_ok::<EnvDescriptor, EnvQueryDescriptor>(request.env, before.env, after.env)
                && stage_ok::<SysDescriptor, SysDescriptor>(request.sys, before.sys, after.sys)
                && stage_ok::<AllowRunDescriptor, RunQueryDescriptor>(request.run, before.run, after.run)
                && child_outcome::<FfiDescriptor, FfiQueryDescriptor>(request.ffi, before.ffi, after.ffi, Err(e)))
        },
    }
}

impl Permissions {
    /// Derives a worker's permissions from these, flag by flag in the
    /// order read, write, import, net, env, sys, run, ffi; the first flag
    /// that fails ends it.
    pub fn create_child_permissions<B: PermissionBroker, P: PermissionPrompter>(
        &mut self,
        request: ChildPermissionsRequest,
        broker: &mut B,
        prompter: &mut P,
    ) -> (r: Result<Permissions, ChildPermissionError>)
        ensures
            permissions_child_outcome(request, *old(self), *final(self), r),
    {
        let read = match self.read.create_child_permissions::<ReadQueryDescriptor, B, P>(request.read, broker, prompter) {
            Ok(p) => p,
            Err(e) => {
                return Err(e);
            },
        };
        let write = match self.write.create_child_permissions::<WriteQueryDescriptor, B, P>(request.write, broker, prompter) {
            Ok(p) => p,
            Err(e) => {
                return Err(e);
            },
        };
        let import = match self.import.create_child_permissions::<ImportDescriptor, B, P>(request.import, broker, prompter) {
            Ok(p) => p,
            Err(e) => {
                return Err(e);
            },
        };
        let net = match self.net.create_child_permissions::<NetDescriptor, B, P>(request.net, broker, prompter) {
            Ok(p) => p,
            Err(e) => {
                return Err(e);
            },
        };
        let env = match self.env.create_child_permissions::<EnvQueryDescriptor, B, P>(request.env, broker, prompter) {
            Ok(p) => p,
            Err(e) => {
                return Err(e);
            },
        };
        let sys = match self.sys.create_child_permissions::<SysDescriptor, B, P>(request.sys, broker, prompter) {
            Ok(p) => p,
            Err(e) => {
                return Err(e);
            },
        };
        let run = match self.run.create_child_permissions::<RunQueryDescriptor, B, P>(request.run, broker, prompter) {
            Ok(p) => p,
            Err(e) => {
                return Err(e);
            },
        };
        let ffi = match self.ffi.create_child_permissions::<FfiQueryDescriptor, B, P>(request.ffi, broker, prompter) {
            Ok(p) => p,
            Err(e) => {
                return Err(e);
            },
        };
        Ok(Permissions { read, write, net, env, sys, run, ffi, import })
    }
}


/// The flag lists of a process, each value already parsed (the command
/// names of `allow_run` already looked up).
pub struct ParsedPermissionsOptions {
    pub allow_env: Option<Vec<EnvDescriptor>>,
    pub deny_env: Option<Vec<EnvDescriptor>>,
    pub ignore_env: Option<Vec<EnvDescriptor>>,
    pub allow_net: Option<Vec<NetDescriptor>>,
    pub deny_net: Option<Vec<NetDescriptor>>,
    pub allow_ffi: Option<Vec<FfiDescriptor>>,
    pub deny_ffi: Option<Vec<FfiDescriptor>>,
    pub allow_read: Option<Vec<ReadDescriptor>>,
    pub deny_read: Option<Vec<ReadDescriptor>>,
    pub ignore_read: Option<Vec<ReadDescriptor>>,
    pub allow_run: Option<Vec<AllowRunDescriptorParseResult>>,
    pub deny_run: Option<Vec<DenyRunDescriptor>>,
    pub allow_sys: Option<Vec<SysDescriptor>>,
    pub deny_sys: Option<Vec<SysDescriptor>>,
    pub allow_write: Option<Vec<WriteDescriptor>>,
    pub deny_write: Option<Vec<WriteDescriptor>>,
    pub allow_import: Option<Vec<ImportDescriptor>>,
    pub deny_import: Option<Vec<ImportDescriptor>>,
    pub prompt: bool,
}

/// The commands that resolved, in order.
pub open spec fn resolved_runs(v: Seq<AllowRunDescriptorParseResult>) -> Seq<AllowRunDescriptor>
    decreases v.len(),
{
    if v.len() == 0 {
        Seq::empty()
    } else {
        let earlier = resolved_runs(v.drop_last());
        match v.last() {
            AllowRunDescriptorParseResult::Descriptor(d) => earlier.push(d),
            AllowRunDescriptorParseResult::Unresolved(_) => earlier,
        }
    }
}

/// The `allow_run` list that takes effect: the resolved commands, or no
/// list at all when none of a non-empty list resolved.
pub open spec fn effective_runs(raw: Option<Seq<AllowRunDescriptorParseResult>>) -> Option<Seq<AllowRunDescriptor>> {
    match raw {
        None => None,
        Some(v) => if v.len() > 0 && resolved_runs(v).len() == 0 {
            None
        } else {
            Some(resolved_runs(v))
        },
    }
}

/// The `deny_write` list, extended by every command that may be run: a
/// process may not write the programs it is allowed to run.
pub open spec fn deny_write_with_runs(
    deny: Option<Seq<WriteDescriptor>>,
    runs: Option<Seq<AllowRunDescriptor>>,
) -> Option<Seq<WriteDescriptor>> {
    match runs {
        Some(r) => if r.len() > 0 {
            Some(items_or_empty(deny) + r.map_values(|a: AllowRunDescriptor| WriteDescriptor(a.0)))
        } else {
            deny
        },
        None => deny,
    }
}

fn resolve_runs(raw: Option<Vec<AllowRunDescriptorParseResult>>) -> (r: Option<Vec<AllowRunDescriptor>>)
    ensures
        opt_items(r) == effective_runs(opt_items(raw)),
{
    let items = match raw {
        None => return None,
        Some(v) => v,
    };
    let ghost v = items@;
    let n = items.len();
    let mut rest = items;
    let mut out: Vec<AllowRunDescriptor> = Vec::new();
    let mut i: usize = 0;
    while rest.len() > 0
        invariant
            v.len() == n,
            i + rest@.len() == n,
            rest@ == v.skip(i as int),
            out@ == resolved_runs(v.take(i as int)),
        decreases rest@.len(),
    {
        let item = rest.remove(0);
        assert(item == v[i as int]);
        assert(rest@ =~= v.skip(i + 1));
        assert(v.take(i + 1).drop_last() =~= v.take(i as int));
        match item {
            AllowRunDescriptorParseResult::Descriptor(d) => {
                out.push(d);
            },
            AllowRunDescriptorParseResult::Unresolved(_) => {},
        }
        i = i + 1;
    }
    assert(v.take(i as int) =~= v);
    if n > 0 && out.len() == 0 {
        None
    } else {
        Some(out)
    }
}

fn add_run_denials(deny: Option<Vec<WriteDescriptor>>, runs: &Option<Vec<AllowRunDescriptor>>) -> (r: Option<
    Vec<WriteDescriptor>,
>)
    ensures
        opt_items(r) == deny_write_with_runs(opt_items(deny), opt_items(*runs)),
{
    let rs = match runs {
        Some(rs) => rs,
        None => return deny,
    };
    if rs.len() == 0 {
        return deny;
    }
    let mut out = match deny {
        Some(d) => d,
        None => Vec::new(),
    };
    let ghost start = out@;
    let ghost mapped = rs@.map_values(|a: AllowRunDescriptor| WriteDescriptor(a.0));
    let mut i: usize = 0;
    while i < rs.len()
        invariant
            i <= rs@.len(),
            mapped == rs@.map_values(|a: AllowRunDescriptor| WriteDescriptor(a.0)),
            out@ == start + mapped.take(i as int),
        decreases rs@.len() - i,
    {
        out.push(WriteDescriptor(rs[i].0.duplicate()));
        assert(mapped.take(i + 1) =~= mapped.take(i as int).push(mapped[i as int]));
        assert(out@ =~= start + mapped.take(i + 1));
        i = i + 1;
    }
    assert(mapped.take(i as int) =~= mapped);
    Some(out)
}

impl Permissions {
    /// The permissions the flag lists give. A non-empty `allow_run` list of
    /// which no command resolved grants nothing; every command that may be
    /// run is also denied for writing.
    pub fn from_options(opts: ParsedPermissionsOptions) -> (r: Permissions)
        ensures
            built_from(r.read, opt_items(opts.allow_read), opt_items(opts.deny_read), opt_items(opts.ignore_read), opts.prompt),
            built_from(
                r.write,
                opt_items(opts.allow_write),
                deny_write_with_runs(opt_items(opts.deny_write), effective_runs(opt_items(opts.allow_run))),
                None,
                opts.prompt,
            ),
            built_from(r.net, opt_items(opts.allow_net), opt_items(opts.deny_net), None, opts.prompt),
            built_from(r.env, opt_items(opts.allow_env), opt_items(opts.deny_env), opt_items(opts.ignore_env), opts.prompt),
            built_from(r.sys, opt_items(opts.allow_sys), opt_items(opts.deny_sys), None, opts.prompt),
            built_from(r.run, effective_runs(opt_items(opts.allow_run)), opt_items(opts.deny_run), None, opts.prompt),
            built_from(r.ffi, opt_items(opts.allow_ffi), opt_items(opts.deny_ffi), None, opts.prompt),
            built_from(r.import, opt_items(opts.allow_import), opt_items(opts.deny_import), None, opts.prompt),
    {
        let allow_run = resolve_runs(opts.allow_run);
        let deny_write = add_run_denials(opts.deny_write, &allow_run);
        Permissions {
            read: new_unary_with_ignore(opts.allow_read, opts.deny_read, opts.ignore_read, opts.prompt),
            write: new_unary_with_ignore(opts.allow_write, deny_write, None, opts.prompt),
            net: new_unary_with_ignore(opts.allow_net, opts.deny_net, None, opts.prompt),
            env: new_unary_with_ignore(opts.allow_env, opts.deny_env, opts.ignore_env, opts.prompt),
            sys: new_unary_with_ignore(opts.allow_sys, opts.deny_sys, None, opts.prompt),
            run: new_unary_with_ignore(allow_run, opts.deny_run, None, opts.prompt),
            ffi: new_unary_with_ignore(opts.allow_ffi, opts.deny_ffi, None, opts.prompt),
            import: new_unary_with_ignore(opts.allow_import, opts.deny_import, None, opts.prompt),
        }
    }
}

} // verus!
