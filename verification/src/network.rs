//! Network descriptors (`net` and `import`) over plain values: an IPv4
//! or IPv6 address as its number, an IP network as its address and prefix
//! length, a domain name in its RFC 1035 wire form (length-prefixed labels
//! ending in a nul, each byte one character), and the text the descriptor
//! is shown as. Descriptor text is parsed here; what IP address parsing
//! answers for the parts the parse names is done outside the library,
//! where address parsing is available, and handed in.
use vstd::prelude::*;

use crate::paths::{absolute, is_absolute, normalize_path, normalized, path_compare, path_order};
use crate::perms::{
    SubdomainWildcards,
    denied_error_view, opt_str, permission_denied_error, result_view, BrokerResponse, PermissionDeniedError,
    PermissionPrompter, PermissionState,
};
use crate::text::{
    ascii_lower, concat, contains_char, decimal, decimal_u32, ends_with, find_char, first_index_of, has_char,
    lemma_first_index_of, lex_order, parse_u16, parse_u32, parsed_u16, parsed_u32, starts_with, str_compare, str_eq,
    strip_suffix_char, strip_zone, substring, to_ascii_lower, to_owned, zone_stripped,
};
use crate::unary::{
    format_display_name, formatted_name, opt_owned_view, opt_view, AllowDescriptor, AllowPartial, DenyDescriptor,
    QueryDescriptor,
    UnaryPermission, UnaryPermissionDesc,
};
use crate::Cmp;

verus! {

/// An IP address as its number.
#[derive(Clone, Copy, Debug, PartialEq, Eq, Structural)]
pub enum IpAddress {
    V4(u32),
    V6(u128),
}

/// An IP network: an address and the length of its prefix.
#[derive(Clone, Copy, Debug, PartialEq, Eq, Structural)]
pub enum IpNetwork {
    /// An IPv4 address and prefix length.
    V4(u32, u8),
    /// An IPv6 address and prefix length.
    V6(u128, u8),
}

/// The mask of the first `p` bits of an IPv4 address (all bits from 32 on).
pub open spec fn netmask32(p: u8) -> u32 {
    if p == 0 {
        0
    } else if p >= 32 {
        0xffff_ffffu32
    } else {
        (0xffff_ffffu32 << ((32 - p) as u32)) as u32
    }
}

/// The mask of the bits of an IPv4 address after the first `p`.
pub open spec fn hostmask32(p: u8) -> u32 {
    if p >= 32 {
        0
    } else {
        (0xffff_ffffu32 >> (p as u32)) as u32
    }
}

pub open spec fn netmask128(p: u8) -> u128 {
    if p == 0 {
        0
    } else if p >= 128 {
        0xffff_ffff_ffff_ffff_ffff_ffff_ffff_ffffu128
    } else {
        (0xffff_ffff_ffff_ffff_ffff_ffff_ffff_ffffu128 << ((128 - p) as u128)) as u128
    }
}

pub open spec fn hostmask128(p: u8) -> u128 {
    if p >= 128 {
        0
    } else {
        (0xffff_ffff_ffff_ffff_ffff_ffff_ffff_ffffu128 >> (p as u128)) as u128
    }
}

/// A network holds an address of its own family between its network and
/// broadcast addresses.
pub open spec fn network_contains(n: IpNetwork, ip: IpAddress) -> bool {
    match (n, ip) {
        (IpNetwork::V4(addr, prefix_len), IpAddress::V4(a)) => (addr & netmask32(prefix_len)) <= a && a <= (addr
            | hostmask32(prefix_len)),
        (IpNetwork::V6(addr, prefix_len), IpAddress::V6(a)) => (addr & netmask128(prefix_len)) <= a && a <= (addr
            | hostmask128(prefix_len)),
        _ => false,
    }
}

fn netmask_v4(p: u8) -> (r: u32)
    ensures
        r == netmask32(p),
{
    if p == 0 {
        0
    } else if p >= 32 {
        0xffff_ffffu32
    } else {
        0xffff_ffffu32 << ((32 - p) as u32)
    }
}

fn hostmask_v4(p: u8) -> (r: u32)
    ensures
        r == hostmask32(p),
{
    if p >= 32 {
        0
    } else {
        0xffff_ffffu32 >> (p as u32)
    }
}

fn netmask_v6(p: u8) -> (r: u128)
    ensures
        r == netmask128(p),
{
    if p == 0 {
        0
    } else if p >= 128 {
        0xffff_ffff_ffff_ffff_ffff_ffff_ffff_ffffu128
    } else {
        0xffff_ffff_ffff_ffff_ffff_ffff_ffff_ffffu128 << ((128 - p) as u128)
    }
}

fn hostmask_v6(p: u8) -> (r: u128)
    ensures
        r == hostmask128(p),
{
    if p >= 128 {
        0
    } else {
        0xffff_ffff_ffff_ffff_ffff_ffff_ffff_ffffu128 >> (p as u128)
    }
}

impl IpNetwork {
    /// Whether the network holds `ip`.
    pub fn contains(&self, ip: &IpAddress) -> (r: bool)
        ensures
            r == network_contains(*self, *ip),
    {
        match (self, ip) {
            (IpNetwork::V4(addr, prefix_len), IpAddress::V4(a)) => {
                (*addr & netmask_v4(*prefix_len)) <= *a && *a <= (*addr | hostmask_v4(*prefix_len))
            },
            (IpNetwork::V6(addr, prefix_len), IpAddress::V6(a)) => {
                (*addr & netmask_v6(*prefix_len)) <= *a && *a <= (*addr | hostmask_v6(*prefix_len))
            },
            _ => false,
        }
    }
}

/// A host a network descriptor names.
#[derive(Debug)]
pub enum Host {
    /// A domain name, in wire form.
    Fqdn(String),
    /// A domain and every subdomain of it (`*.example.com`), in wire form.
    FqdnWithSubdomainWildcard(String),
    Ip(IpAddress),
    Vsock(u32),
    IpSubnet(IpNetwork),
    UnixSocket(String),
}

pub enum HostView {
    Fqdn(Seq<char>),
    FqdnWithSubdomainWildcard(Seq<char>),
    Ip(IpAddress),
    Vsock(u32),
    IpSubnet(IpNetwork),
    UnixSocket(Seq<char>),
}

impl View for Host {
    type V = HostView;

    open spec fn view(&self) -> HostView {
        match self {
            Host::Fqdn(f) => HostView::Fqdn(f@),
            Host::FqdnWithSubdomainWildcard(f) => HostView::FqdnWithSubdomainWildcard(f@),
            Host::Ip(a) => HostView::Ip(*a),
            Host::Vsock(c) => HostView::Vsock(*c),
            Host::IpSubnet(n) => HostView::IpSubnet(*n),
            Host::UnixSocket(p) => HostView::UnixSocket(p@),
        }
    }
}

/// A domain is a subdomain of `parent` when its wire form ends with
/// `parent`'s (a domain is a subdomain of itself).
pub open spec fn subdomain_of(child: Seq<char>, parent: Seq<char>) -> bool {
    parent.is_suffix_of(child)
}

/// The rank of a host's kind in the order of hosts.
pub open spec fn host_rank(h: HostView) -> u8 {
    match h {
        HostView::Fqdn(_) => 0,
        HostView::FqdnWithSubdomainWildcard(_) => 1,
        HostView::Ip(_) => 2,
        HostView::Vsock(_) => 3,
        HostView::IpSubnet(_) => 4,
        HostView::UnixSocket(_) => 5,
    }
}

pub open spec fn num_order(a: int, b: int) -> Cmp {
    if a < b {
        Cmp::Less
    } else if a == b {
        Cmp::Equal
    } else {
        Cmp::Greater
    }
}

/// Addresses order IPv4 first, then by number.
pub open spec fn address_order(a: IpAddress, b: IpAddress) -> Cmp {
    match (a, b) {
        (IpAddress::V4(x), IpAddress::V4(y)) => num_order(x as int, y as int),
        (IpAddress::V6(x), IpAddress::V6(y)) => num_order(x as int, y as int),
        (IpAddress::V4(_), IpAddress::V6(_)) => Cmp::Less,
        (IpAddress::V6(_), IpAddress::V4(_)) => Cmp::Greater,
    }
}

pub open spec fn then_order(first: Cmp, second: Cmp) -> Cmp {
    if first == Cmp::Equal {
        second
    } else {
        first
    }
}

/// Networks order IPv4 first, then by address, then by prefix length.
pub open spec fn network_order(a: IpNetwork, b: IpNetwork) -> Cmp {
    match (a, b) {
        (IpNetwork::V4(x, p), IpNetwork::V4(y, q)) => then_order(
            num_order(x as int, y as int),
            num_order(p as int, q as int),
        ),
        (IpNetwork::V6(x, p), IpNetwork::V6(y, q)) => then_order(
            num_order(x as int, y as int),
            num_order(p as int, q as int),
        ),
        (IpNetwork::V4(..), IpNetwork::V6(..)) => Cmp::Less,
        (IpNetwork::V6(..), IpNetwork::V4(..)) => Cmp::Greater,
    }
}

/// The order of hosts: by kind, then within a kind.
pub open spec fn host_order(a: HostView, b: HostView) -> Cmp {
    match (a, b) {
        (HostView::Fqdn(x), HostView::Fqdn(y)) => lex_order(x, y),
        (HostView::FqdnWithSubdomainWildcard(x), HostView::FqdnWithSubdomainWildcard(y)) => lex_order(x, y),
        (HostView::Ip(x), HostView::Ip(y)) => address_order(x, y),
        (HostView::Vsock(x), HostView::Vsock(y)) => num_order(x as int, y as int),
        (HostView::IpSubnet(x), HostView::IpSubnet(y)) => network_order(x, y),
        (HostView::UnixSocket(x), HostView::UnixSocket(y)) => path_order(x, y),
        _ => num_order(host_rank(a) as int, host_rank(b) as int),
    }
}

fn num_compare_u32(a: u32, b: u32) -> (r: Cmp)
    ensures
        r == num_order(a as int, b as int),
{
    if a < b {
        Cmp::Less
    } else if a == b {
        Cmp::Equal
    } else {
        Cmp::Greater
    }
}

fn num_compare_u128(a: u128, b: u128) -> (r: Cmp)
    ensures
        r == num_order(a as int, b as int),
{
    if a < b {
        Cmp::Less
    } else if a == b {
        Cmp::Equal
    } else {
        Cmp::Greater
    }
}

fn then_compare(first: Cmp, second: Cmp) -> (r: Cmp)
    ensures
        r == then_order(first, second),
{
    match first {
        Cmp::Equal => second,
        _ => first,
    }
}

fn host_rank_of(h: &Host) -> (r: u8)
    ensures
        r == host_rank(h@),
{
    match h {
        Host::Fqdn(_) => 0,
        Host::FqdnWithSubdomainWildcard(_) => 1,
        Host::Ip(_) => 2,
        Host::Vsock(_) => 3,
        Host::IpSubnet(_) => 4,
        Host::UnixSocket(_) => 5,
    }
}

fn address_compare(a: &IpAddress, b: &IpAddress) -> (r: Cmp)
    ensures
        r == address_order(*a, *b),
{
    match (a, b) {
        (IpAddress::V4(x), IpAddress::V4(y)) => num_compare_u32(*x, *y),
        (IpAddress::V6(x), IpAddress::V6(y)) => num_compare_u128(*x, *y),
        (IpAddress::V4(_), IpAddress::V6(_)) => Cmp::Less,
        (IpAddress::V6(_), IpAddress::V4(_)) => Cmp::Greater,
    }
}

fn network_compare(a: &IpNetwork, b: &IpNetwork) -> (r: Cmp)
    ensures
        r == network_order(*a, *b),
{
    match (a, b) {
        (IpNetwork::V4(x, p), IpNetwork::V4(y, q)) => then_compare(
            num_compare_u32(*x, *y),
            num_compare_u32(*p as u32, *q as u32),
        ),
        (IpNetwork::V6(x, p), IpNetwork::V6(y, q)) => then_compare(
            num_compare_u128(*x, *y),
            num_compare_u32(*p as u32, *q as u32),
        ),
        (IpNetwork::V4(..), IpNetwork::V6(..)) => Cmp::Less,
        (IpNetwork::V6(..), IpNetwork::V4(..)) => Cmp::Greater,
    }
}

impl Host {
    /// The order of two hosts.
    pub fn compare(&self, other: &Host) -> (r: Cmp)
        ensures
            r == host_order(self@, other@),
    {
        match (self, other) {
            (Host::Fqdn(x), Host::Fqdn(y)) => str_compare(x.as_str(), y.as_str()),
            (Host::FqdnWithSubdomainWildcard(x), Host::FqdnWithSubdomainWildcard(y)) => str_compare(
                x.as_str(),
                y.as_str(),
            ),
            (Host::Ip(x), Host::Ip(y)) => address_compare(x, y),
            (Host::Vsock(x), Host::Vsock(y)) => num_compare_u32(*x, *y),
            (Host::IpSubnet(x), Host::IpSubnet(y)) => network_compare(x, y),
            (Host::UnixSocket(x), Host::UnixSocket(y)) => path_compare(x.as_str(), y.as_str()),
            _ => num_compare_u32(host_rank_of(self) as u32, host_rank_of(other) as u32),
        }
    }

    /// An identical copy.
    pub fn duplicate(&self) -> (r: Host)
        ensures
            r == *self,
    {
        match self {
            Host::Fqdn(f) => Host::Fqdn(f.clone()),
            Host::FqdnWithSubdomainWildcard(f) => Host::FqdnWithSubdomainWildcard(f.clone()),
            Host::Ip(a) => Host::Ip(*a),
            Host::Vsock(c) => Host::Vsock(*c),
            Host::IpSubnet(n) => Host::IpSubnet(*n),
            Host::UnixSocket(p) => Host::UnixSocket(p.clone()),
        }
    }
}

/// A network address: a host, an optional port, and the text it is shown
/// as.
#[derive(Debug)]
pub struct NetDescriptor {
    pub host: Host,
    pub port: Option<u32>,
    pub display: String,
}

pub struct NetView {
    pub host: HostView,
    pub port: Option<u32>,
    pub display: Seq<char>,
}

impl View for NetDescriptor {
    type V = NetView;

    open spec fn view(&self) -> NetView {
        NetView { host: self.host@, port: self.port, display: self.display@ }
    }
}

/// A descriptor with a port orders before one without; then by host, then
/// by port.
pub open spec fn net_order(a: NetView, b: NetView) -> Cmp {
    match (a.port, b.port) {
        (Some(_), None) => Cmp::Less,
        (None, Some(_)) => Cmp::Greater,
        (Some(x), Some(y)) => then_order(host_order(a.host, b.host), num_order(x as int, y as int)),
        (None, None) => host_order(a.host, b.host),
    }
}

/// A granted descriptor orders after a denied one it equals.
pub open spec fn net_deny_order(a: NetView, b: NetView) -> Cmp {
    if net_order(a, b) == Cmp::Equal {
        Cmp::Greater
    } else {
        net_order(a, b)
    }
}

/// The grant `allow` covers the query `q`: the ports agree when the grant
/// names one, and the host is the same, a subdomain of a wildcard, or an
/// address within a network.
pub open spec fn net_matches(q: NetView, allow: NetView) -> bool {
    &&& (allow.port is Some ==> q.port == allow.port)
    &&& match (allow.host, q.host) {
        (HostView::Fqdn(a), HostView::Fqdn(b)) => a == b,
        (HostView::FqdnWithSubdomainWildcard(a), HostView::Fqdn(b)) => subdomain_of(b, a),
        (HostView::FqdnWithSubdomainWildcard(a), HostView::FqdnWithSubdomainWildcard(b)) => a == b,
        (HostView::Ip(a), HostView::Ip(b)) => a == b,
        (HostView::Vsock(a), HostView::Vsock(b)) => a == b,
        (HostView::UnixSocket(a), HostView::UnixSocket(b)) => a == b,
        (HostView::IpSubnet(a), HostView::Ip(b)) => network_contains(a, b),
        _ => false,
    }
}

fn port_agrees(q: Option<u32>, allow: Option<u32>) -> (r: bool)
    ensures
        r == (allow is Some ==> q == allow),
{
    match (q, allow) {
        (_, None) => true,
        (Some(a), Some(b)) => a == b,
        (None, Some(_)) => false,
    }
}

impl NetDescriptor {
    /// An identical copy.
    pub fn duplicate(&self) -> (r: NetDescriptor)
        ensures
            r == *self,
    {
        NetDescriptor { host: self.host.duplicate(), port: self.port, display: self.display.clone() }
    }

    /// Whether the grant `other` covers this query.
    pub fn matches(&self, other: &NetDescriptor) -> (r: bool)
        ensures
            r == net_matches(self@, other@),
    {
        if !port_agrees(self.port, other.port) {
            return false;
        }
        match (&other.host, &self.host) {
            (Host::Fqdn(a), Host::Fqdn(b)) => str_eq(a.as_str(), b.as_str()),
            (Host::FqdnWithSubdomainWildcard(a), Host::Fqdn(b)) => ends_with(b.as_str(), a.as_str()),
            (Host::FqdnWithSubdomainWildcard(a), Host::FqdnWithSubdomainWildcard(b)) => str_eq(a.as_str(), b.as_str()),
            (Host::Ip(a), Host::Ip(b)) => *a == *b,
            (Host::Vsock(a), Host::Vsock(b)) => *a == *b,
            (Host::UnixSocket(a), Host::UnixSocket(b)) => str_eq(a.as_str(), b.as_str()),
            (Host::IpSubnet(a), Host::Ip(b)) => a.contains(b),
            _ => false,
        }
    }

    /// The order of two descriptors in a permission's list.
    pub fn compare(&self, other: &NetDescriptor) -> (r: Cmp)
        ensures
            r == net_order(self@, other@),
    {
        match (self.port, other.port) {
            (Some(_), None) => Cmp::Less,
            (None, Some(_)) => Cmp::Greater,
            (Some(x), Some(y)) => then_compare(self.host.compare(&other.host), num_compare_u32(x, y)),
            (None, None) => self.host.compare(&other.host),
        }
    }

    pub fn into_import(self) -> (r: ImportDescriptor)
        ensures
            r.0 == self,
    {
        ImportDescriptor(self)
    }
}


/// A host a module may be imported from.
#[derive(Debug)]
pub struct ImportDescriptor(pub NetDescriptor);

impl View for ImportDescriptor {
    type V = NetView;

    open spec fn view(&self) -> NetView {
        self.0@
    }
}

impl AllowDescriptor for NetDescriptor {
    type DenyView = NetView;

    type DenyDesc = NetDescriptor;

    open spec fn cmp_allow_spec(a: NetView, b: NetView) -> Cmp {
        net_order(a, b)
    }

    open spec fn cmp_deny_spec(a: NetView, b: NetView) -> Cmp {
        net_deny_order(a, b)
    }

    fn cmp_allow(&self, other: &Self) -> (r: Cmp) {
        self.compare(&other)
    }

    fn cmp_deny(&self, other: &Self) -> (r: Cmp) {
        match self.compare(&other) {
            Cmp::Equal => Cmp::Greater,
            c => c,
        }
    }

    fn copy_allow(&self) -> (r: Self) {
        self.duplicate()
    }
}

impl DenyDescriptor for NetDescriptor {
    open spec fn deny_order_spec(a: NetView, b: NetView) -> Cmp {
        net_order(a, b)
    }

    fn cmp_deny(&self, other: &Self) -> (r: Cmp) {
        self.compare(&other)
    }

    fn copy_deny(&self) -> (r: Self) {
        self.duplicate()
    }
}

impl QueryDescriptor<NetDescriptor> for NetDescriptor {
    open spec fn flag_name_spec() -> Seq<char> {
        "net"@
    }

    open spec fn display_name_spec(q: NetView) -> Seq<char> {
        q.display
    }

    open spec fn as_allow_spec(q: NetView) -> Option<NetView> {
        Some(q)
    }

    open spec fn as_deny_spec(q: NetView) -> NetView {
        q
    }

    open spec fn matches_allow_spec(q: NetView, a: NetView) -> bool {
        net_matches(q, a)
    }

    open spec fn matches_deny_spec(q: NetView, d: NetView) -> bool {
        net_matches(q, d)
    }

    open spec fn revokes_spec(q: NetView, a: NetView) -> bool {
        net_matches(q, a)
    }

    open spec fn stronger_than_deny_spec(q: NetView, d: NetView) -> bool {
        net_matches(q, d)
    }

    open spec fn overlaps_deny_spec(q: NetView, d: NetView) -> bool {
        false
    }

    open spec fn from_allow_spec(a: NetView) -> NetView {
        a
    }

    open spec fn non_partial_spec() -> bool {
        false
    }

    fn from_allow(allow: &NetDescriptor) -> (r: NetDescriptor) {
        allow.duplicate()
    }

    fn non_partial() -> (r: bool) {
        false
    }

    fn flag_name() -> (r: &'static str) {
        "net"
    }

    fn display_name(&self) -> (r: String) {
        self.display.clone()
    }

    fn as_allow(&self) -> (r: Option<NetDescriptor>) {
        Some(self.duplicate())
    }

    fn as_deny(&self) -> (r: NetDescriptor) {
        self.duplicate()
    }

    fn matches_allow(&self, other: &NetDescriptor) -> (r: bool) {
        self.matches(&other)
    }

    fn matches_deny(&self, other: &NetDescriptor) -> (r: bool) {
        self.matches(&other)
    }

    fn revokes(&self, other: &NetDescriptor) -> (r: bool) {
        self.matches(&other)
    }

    fn stronger_than_deny(&self, other: &NetDescriptor) -> (r: bool) {
        self.matches(&other)
    }

    fn overlaps_deny(&self, other: &NetDescriptor) -> (r: bool) {
        false
    }
}

impl UnaryPermission<NetDescriptor> {
    pub fn query(&self, host: Option<&NetDescriptor>) -> (r: PermissionState)
        ensures
            r == self.query_spec::<NetDescriptor>(opt_view(host), AllowPartial::TreatAsPartialGranted),
    {
        self.query_desc(host, AllowPartial::TreatAsPartialGranted)
    }

    pub fn request<P: PermissionPrompter>(&mut self, host: Option<&NetDescriptor>, prompter: &mut P) -> (r: PermissionState)
        ensures
            old(self).requested_spec::<NetDescriptor>(final(self), opt_view(host), r),
    {
        self.request_desc(host, prompter)
    }

    pub fn revoke(&mut self, host: Option<&NetDescriptor>) -> (r: PermissionState)
        ensures
            old(self).revoked_spec::<NetDescriptor>(final(self), opt_view(host), r),
    {
        self.revoke_desc(host)
    }

    pub fn check<P: PermissionPrompter>(
        &mut self,
        host: &NetDescriptor,
        api_name: Option<&str>,
        broker: Option<BrokerResponse>,
        prompter: &mut P,
    ) -> (r: Result<(), PermissionDeniedError>)
        ensures
            old(self).checked_spec::<NetDescriptor>(final(self), Some(host@), false, broker, result_view(r)),
    {
        self.check_skipping_allow_all(Some(host), false, api_name, broker, prompter)
    }

    pub fn check_all<P: PermissionPrompter>(&mut self, broker: Option<BrokerResponse>, prompter: &mut P) -> (r: Result<
        (),
        PermissionDeniedError,
    >)
        ensures
            old(self).checked_spec::<NetDescriptor>(final(self), None, false, broker, result_view(r)),
    {
        self.check_skipping_allow_all::<NetDescriptor, P>(None, false, None, broker, prompter)
    }
}

impl AllowDescriptor for ImportDescriptor {
    type DenyView = NetView;

    type DenyDesc = ImportDescriptor;

    open spec fn cmp_allow_spec(a: NetView, b: NetView) -> Cmp {
        net_order(a, b)
    }

    open spec fn cmp_deny_spec(a: NetView, b: NetView) -> Cmp {
        net_deny_order(a, b)
    }

    fn cmp_allow(&self, other: &Self) -> (r: Cmp) {
        self.0.compare(&other.0)
    }

    fn cmp_deny(&self, other: &Self) -> (r: Cmp) {
        match self.0.compare(&other.0) {
            Cmp::Equal => Cmp::Greater,
            c => c,
        }
    }

    fn copy_allow(&self) -> (r: Self) {
        ImportDescriptor(self.0.duplicate())
    }
}

impl DenyDescriptor for ImportDescriptor {
    open spec fn deny_order_spec(a: NetView, b: NetView) -> Cmp {
        net_order(a, b)
    }

    fn cmp_deny(&self, other: &Self) -> (r: Cmp) {
        self.0.compare(&other.0)
    }

    fn copy_deny(&self) -> (r: Self) {
        ImportDescriptor(self.0.duplicate())
    }
}

impl QueryDescriptor<ImportDescriptor> for ImportDescriptor {
    open spec fn flag_name_spec() -> Seq<char> {
        "import"@
    }

    open spec fn display_name_spec(q: NetView) -> Seq<char> {
        q.display
    }

    open spec fn as_allow_spec(q: NetView) -> Option<NetView> {
        Some(q)
    }

    open spec fn as_deny_spec(q: NetView) -> NetView {
        q
    }

    open spec fn matches_allow_spec(q: NetView, a: NetView) -> bool {
        net_matches(q, a)
    }

    open spec fn matches_deny_spec(q: NetView, d: NetView) -> bool {
        net_matches(q, d)
    }

    open spec fn revokes_spec(q: NetView, a: NetView) -> bool {
        net_matches(q, a)
    }

    open spec fn stronger_than_deny_spec(q: NetView, d: NetView) -> bool {
        net_matches(q, d)
    }

    open spec fn overlaps_deny_spec(q: NetView, d: NetView) -> bool {
        false
    }

    open spec fn from_allow_spec(a: NetView) -> NetView {
        a
    }

    open spec fn non_partial_spec() -> bool {
        false
    }

    fn from_allow(allow: &ImportDescriptor) -> (r: ImportDescriptor) {
        ImportDescriptor(allow.0.duplicate())
    }

    fn non_partial() -> (r: bool) {
        false
    }

    fn flag_name() -> (r: &'static str) {
        "import"
    }

    fn display_name(&self) -> (r: String) {
        self.0.display.clone()
    }

    fn as_allow(&self) -> (r: Option<ImportDescriptor>) {
        Some(ImportDescriptor(self.0.duplicate()))
    }

    fn as_deny(&self) -> (r: ImportDescriptor) {
        ImportDescriptor(self.0.duplicate())
    }

    fn matches_allow(&self, other: &ImportDescriptor) -> (r: bool) {
        self.0.matches(&other.0)
    }

    fn matches_deny(&self, other: &ImportDescriptor) -> (r: bool) {
        self.0.matches(&other.0)
    }

    fn revokes(&self, other: &ImportDescriptor) -> (r: bool) {
        self.0.matches(&other.0)
    }

    fn stronger_than_deny(&self, other: &ImportDescriptor) -> (r: bool) {
        self.0.matches(&other.0)
    }

    fn overlaps_deny(&self, other: &ImportDescriptor) -> (r: bool) {
        false
    }
}

impl UnaryPermission<ImportDescriptor> {
    pub fn query(&self, host: Option<&ImportDescriptor>) -> (r: PermissionState)
        ensures
            r == self.query_spec::<ImportDescriptor>(opt_view(host), AllowPartial::TreatAsPartialGranted),
    {
        self.query_desc(host, AllowPartial::TreatAsPartialGranted)
    }

    pub fn request<P: PermissionPrompter>(&mut self, host: Option<&ImportDescriptor>, prompter: &mut P) -> (r: PermissionState)
        ensures
            old(self).requested_spec::<ImportDescriptor>(final(self), opt_view(host), r),
    {
        self.request_desc(host, prompter)
    }

    pub fn revoke(&mut self, host: Option<&ImportDescriptor>) -> (r: PermissionState)
        ensures
            old(self).revoked_spec::<ImportDescriptor>(final(self), opt_view(host), r),
    {
        self.revoke_desc(host)
    }

    pub fn check<P: PermissionPrompter>(
        &mut self,
        host: &ImportDescriptor,
        api_name: Option<&str>,
        broker: Option<BrokerResponse>,
        prompter: &mut P,
    ) -> (r: Result<(), PermissionDeniedError>)
        ensures
            old(self).checked_spec::<ImportDescriptor>(final(self), Some(host@), false, broker, result_view(r)),
    {
        self.check_skipping_allow_all(Some(host), false, api_name, broker, prompter)
    }

    pub fn check_all<P: PermissionPrompter>(&mut self, broker: Option<BrokerResponse>, prompter: &mut P) -> (r: Result<
        (),
        PermissionDeniedError,
    >)
        ensures
            old(self).checked_spec::<ImportDescriptor>(final(self), None, false, broker, result_view(r)),
    {
        self.check_skipping_allow_all::<ImportDescriptor, P>(None, false, None, broker, prompter)
    }
}


/// A flag denies or ignores the address `q`: globally, or by an entry that
/// covers it.
pub open spec fn resolved_ip_denied(perm: UnaryPermission<NetDescriptor>, q: NetView) -> bool {
    perm.flag_denied_global || exists|i: int|
        0 <= i < perm.descriptors.inner@.len() && match #[trigger] perm.descriptors.inner@[i] {
            UnaryPermissionDesc::FlagDenied(v) | UnaryPermissionDesc::FlagIgnored(v) => net_matches(q, v@),
            _ => false,
        }
}

impl UnaryPermission<NetDescriptor> {
    /// Checks an address that a host name resolved to against the flag
    /// denials alone, so that a denial written as an address also stops a
    /// connection made through another name for it. Grants were checked on
    /// the name already.
    pub fn check_resolved_ip_deny(&mut self, desc: &NetDescriptor, api_name: Option<&str>) -> (r: Result<
        (),
        PermissionDeniedError,
    >)
        ensures
            *final(self) == *old(self),
            match r {
                Ok(()) => !resolved_ip_denied(*old(self), desc@),
                Err(e) => resolved_ip_denied(*old(self), desc@) && e@ == denied_error_view(
                    "net"@,
                    Some(formatted_name(desc@.display)),
                    PermissionState::Denied,
                ),
            },
    {
        let info = Some(format_display_name(desc.display.as_str()));
        proof {
            reveal_strlit("net");
        }
        if self.flag_denied_global {
            return Err(permission_denied_error("net", &info, PermissionState::Denied));
        }
        let items = self.descriptors.iter();
        let mut i: usize = 0;
        while i < items.len()
            invariant
                items@ == self.descriptors.inner@,
                !self.flag_denied_global,
                opt_str(info) == Some(formatted_name(desc@.display)),
                i <= items@.len(),
                forall|j: int|
                    0 <= j < i ==> !match #[trigger] items@[j] {
                        UnaryPermissionDesc::FlagDenied(v) | UnaryPermissionDesc::FlagIgnored(v) => net_matches(
                            desc@,
                            v@,
                        ),
                        _ => false,
                    },
            decreases items@.len() - i,
        {
            let hit = match &items[i] {
                UnaryPermissionDesc::FlagDenied(v) | UnaryPermissionDesc::FlagIgnored(v) => desc.matches(v),
                _ => false,
            };
            if hit {
                assert(match items@[i as int] {
                    UnaryPermissionDesc::FlagDenied(v) | UnaryPermissionDesc::FlagIgnored(v) => net_matches(desc@, v@),
                    _ => false,
                });
                return Err(permission_denied_error("net", &info, PermissionState::Denied));
            }
            i = i + 1;
        }
        Ok(())
    }
}

/// Why a host was refused.
#[derive(Debug, PartialEq, Eq)]
pub enum HostParseError {
    InvalidIpv6(String),
    InvalidHost(String),
    InvalidEmptyHost(String),
    /// Not a domain name: the reason, and the host.
    Fqdn { error: String, host: String },
}

pub enum HostParseErrorView {
    InvalidIpv6(Seq<char>),
    InvalidHost(Seq<char>),
    InvalidEmptyHost(Seq<char>),
    Fqdn { error: Seq<char>, host: Seq<char> },
}

impl View for HostParseError {
    type V = HostParseErrorView;

    open spec fn view(&self) -> HostParseErrorView {
        match self {
            HostParseError::InvalidIpv6(s) => HostParseErrorView::InvalidIpv6(s@),
            HostParseError::InvalidHost(s) => HostParseErrorView::InvalidHost(s@),
            HostParseError::InvalidEmptyHost(s) => HostParseErrorView::InvalidEmptyHost(s@),
            HostParseError::Fqdn { error, host } => HostParseErrorView::Fqdn { error: error@, host: host@ },
        }
    }
}

/// Why the text of a network descriptor was refused.
#[derive(Debug, PartialEq, Eq)]
pub enum NetParseError {
    /// A URL was given where a host was expected.
    Url(String),
    /// A bracketed IPv6 address that does not parse: the text and the
    /// address part.
    InvalidIpv6 { hostname: String, ip: String },
    /// A port that is not a 16-bit number: the text and the port part.
    InvalidPort { hostname: String, port: String },
    InvalidHost(String),
    /// A `:` with nothing after it.
    EmptyPort(String),
    /// What looks like an IPv6 address without brackets.
    Ipv6MissingSquareBrackets(String),
    /// The host part was refused.
    Host(HostParseError),
    /// A `vsock:` descriptor without a numeric cid and port.
    InvalidVsock(String),
    /// A `unix:` descriptor whose path is empty or relative.
    InvalidUnixSocket(String),
}

pub enum NetParseErrorView {
    Url(Seq<char>),
    InvalidIpv6 { hostname: Seq<char>, ip: Seq<char> },
    InvalidPort { hostname: Seq<char>, port: Seq<char> },
    InvalidHost(Seq<char>),
    EmptyPort(Seq<char>),
    Ipv6MissingSquareBrackets(Seq<char>),
    Host(HostParseErrorView),
    InvalidVsock(Seq<char>),
    InvalidUnixSocket(Seq<char>),
}

impl View for NetParseError {
    type V = NetParseErrorView;

    open spec fn view(&self) -> NetParseErrorView {
        match self {
            NetParseError::Url(s) => NetParseErrorView::Url(s@),
            NetParseError::InvalidIpv6 { hostname, ip } => NetParseErrorView::InvalidIpv6 {
                hostname: hostname@,
                ip: ip@,
            },
            NetParseError::InvalidPort { hostname, port } => NetParseErrorView::InvalidPort {
                hostname: hostname@,
                port: port@,
            },
            NetParseError::InvalidHost(s) => NetParseErrorView::InvalidHost(s@),
            NetParseError::EmptyPort(s) => NetParseErrorView::EmptyPort(s@),
            NetParseError::Ipv6MissingSquareBrackets(s) => NetParseErrorView::Ipv6MissingSquareBrackets(s@),
            NetParseError::Host(e) => NetParseErrorView::Host(e@),
            NetParseError::InvalidVsock(s) => NetParseErrorView::InvalidVsock(s@),
            NetParseError::InvalidUnixSocket(s) => NetParseErrorView::InvalidUnixSocket(s@),
        }
    }
}

/// `s` up to its first `:`, or all of it.
pub open spec fn before_colon(s: Seq<char>) -> Seq<char> {
    match first_index_of(s, ':') {
        Some(i) => s.take(i),
        None => s,
    }
}

/// The cid and port of the text after `vsock:`: the first two of its
/// `:`-separated fields, the cid `-1` standing for the largest one.
pub open spec fn vsock_fields(rest: Seq<char>) -> Option<(u32, u32)> {
    let first = before_colon(rest);
    let cid = if first == seq!['-', '1'] {
        Some(u32::MAX)
    } else {
        parsed_u32(first)
    };
    match (cid, first_index_of(rest, ':')) {
        (Some(c), Some(i)) => match parsed_u32(before_colon(rest.skip(i + 1))) {
            Some(p) => Some((c, p)),
            None => None,
        },
        _ => None,
    }
}

/// What the `vsock:`, `unix:` and URL forms of a descriptor's text parse
/// to; `None` for any other text. A socket path is normalized as paths to
/// be checked are, so that the rule names the path the call side checks.
pub open spec fn net_prefix_spec(h: Seq<char>) -> Option<Result<NetView, NetParseErrorView>> {
    if "vsock:"@.is_prefix_of(h) {
        Some(
            match vsock_fields(h.skip(6)) {
                Some((cid, port)) => Ok(
                    NetView {
                        host: HostView::Vsock(cid),
                        port: Some(port),
                        display: "vsock:"@ + decimal(cid as int) + ":"@ + decimal(port as int),
                    },
                ),
                None => Err(NetParseErrorView::InvalidVsock(h)),
            },
        )
    } else if "unix:"@.is_prefix_of(h) {
        let rest = h.skip(5);
        if rest.len() == 0 || !absolute(rest) {
            Some(Err(NetParseErrorView::InvalidUnixSocket(h)))
        } else {
            Some(
                Ok(
                    NetView {
                        host: HostView::UnixSocket(normalized(rest)),
                        port: None,
                        display: "unix:"@ + normalized(rest),
                    },
                ),
            )
        }
    } else if "http://"@.is_prefix_of(h) || "https://"@.is_prefix_of(h) {
        Some(Err(NetParseErrorView::Url(h)))
    } else {
        None
    }
}

pub open spec fn net_parse_view(r: Option<Result<NetDescriptor, NetParseError>>) -> Option<
    Result<NetView, NetParseErrorView>,
> {
    match r {
        None => None,
        Some(Ok(d)) => Some(Ok(d@)),
        Some(Err(e)) => Some(Err(e@)),
    }
}

/// `s` up to its first `:`, and what follows that `:` if there is one.
fn split_colon(s: &str) -> (r: (String, Option<String>))
    ensures
        r.0@ == before_colon(s@),
        match first_index_of(s@, ':') {
            Some(i) => r.1 is Some && r.1->0@ == s@.skip(i + 1),
            None => r.1 is None,
        },
{
    let n = s.unicode_len();
    match find_char(s, ':') {
        Some(i) => {
            proof {
                lemma_first_index_of(s@, ':');
            }
            (substring(s, 0, i), Some(substring(s, i + 1, n)))
        },
        None => (to_owned(s), None),
    }
}

/// The cid and port of the text after `vsock:`.
fn parse_vsock_fields(rest: &str) -> (r: Option<(u32, u32)>)
    ensures
        r == vsock_fields(rest@),
{
    let (first, after) = split_colon(rest);
    proof {
        reveal_strlit("-1");
        assert("-1"@ =~= seq!['-', '1']);
    }
    let cid = if str_eq(first.as_str(), "-1") {
        Some(u32::MAX)
    } else {
        parse_u32(first.as_str())
    };
    match (cid, after) {
        (Some(c), Some(a)) => {
            let (second, _) = split_colon(a.as_str());
            match parse_u32(second.as_str()) {
                Some(p) => Some((c, p)),
                None => None,
            }
        },
        _ => None,
    }
}

/// Parses the `vsock:`, `unix:` and URL forms of a network descriptor;
/// any other text is left to the parse of addresses and domain names.
pub fn parse_net_descriptor_prefix(hostname: &str) -> (r: Option<Result<NetDescriptor, NetParseError>>)
    ensures
        net_parse_view(r) == net_prefix_spec(hostname@),
{
    proof {
        reveal_strlit("vsock:");
        reveal_strlit("unix:");
        reveal_strlit(":");
    }
    let n = hostname.unicode_len();
    if starts_with(hostname, "vsock:") {
        let rest = substring(hostname, 6, n);
        return Some(
            match parse_vsock_fields(rest.as_str()) {
                Some((cid, port)) => {
                    let a = concat("vsock:", decimal_u32(cid).as_str());
                    let b = concat(a.as_str(), ":");
                    let display = concat(b.as_str(), decimal_u32(port).as_str());
                    Ok(NetDescriptor { host: Host::Vsock(cid), port: Some(port), display })
                },
                None => Err(NetParseError::InvalidVsock(to_owned(hostname))),
            },
        );
    }
    if starts_with(hostname, "unix:") {
        let rest = substring(hostname, 5, n);
        if n == 5 || !is_absolute(rest.as_str()) {
            return Some(Err(NetParseError::InvalidUnixSocket(to_owned(hostname))));
        }
        let path = normalize_path(rest.as_str());
        let display = concat("unix:", path.as_str());
        return Some(Ok(NetDescriptor { host: Host::UnixSocket(path), port: None, display }));
    }
    if starts_with(hostname, "http://") || starts_with(hostname, "https://") {
        return Some(Err(NetParseError::Url(to_owned(hostname))));
    }
    None
}

/// The wire form `fqdn::FQDN::from_str` makes of `s` (each byte one
/// character, ending in a nul), or the text of its error.
pub uninterp spec fn fqdn_parsed(s: Seq<char>) -> Result<Seq<char>, Seq<char>>;

/// What `ipnet::IpNet::from_str` answers for `s`, as an address number and
/// a prefix length.
pub uninterp spec fn ip_network_parsed(s: Seq<char>) -> Option<IpNetwork>;

/// Calls `fqdn::FQDN::from_str`; its answer is named by `fqdn_parsed`.
#[verifier::external_body]
fn parse_fqdn(s: &str) -> (r: Result<String, String>)
    ensures
        match r {
            Ok(w) => fqdn_parsed(s@) == Ok::<Seq<char>, Seq<char>>(w@),
            Err(e) => fqdn_parsed(s@) == Err::<Seq<char>, Seq<char>>(e@),
        },
{
    match <fqdn::FQDN as std::str::FromStr>::from_str(s) {
        Ok(f) => Ok(f.as_bytes().iter().map(|&b| b as char).collect()),
        Err(e) => Err(e.to_string()),
    }
}

/// Calls `ipnet::IpNet::from_str`; its answer is named by
/// `ip_network_parsed`.
#[verifier::external_body]
fn parse_ip_network(s: &str) -> (r: Option<IpNetwork>)
    ensures
        r == ip_network_parsed(s@),
{
    match s.parse::<ipnet::IpNet>() {
        Ok(ipnet::IpNet::V4(n)) => Some(IpNetwork::V4(u32::from(n.addr()), n.prefix_len())),
        Ok(ipnet::IpNet::V6(n)) => Some(IpNetwork::V6(u128::from(n.addr()), n.prefix_len())),
        Err(_) => None,
    }
}

/// An IPv4-mapped IPv6 address (`::ffff:a.b.c.d`) as the IPv4 address it
/// maps; any other address as it is.
pub open spec fn unmapped(ip: IpAddress) -> IpAddress {
    match ip {
        IpAddress::V6(n) => if n / 0x1_0000_0000 == 0xffff {
            IpAddress::V4((n % 0x1_0000_0000) as u32)
        } else {
            ip
        },
        IpAddress::V4(_) => ip,
    }
}

/// Compares IPv4-mapped IPv6 addresses as their IPv4 form.
pub fn normalize_ip(ip: IpAddress) -> (r: IpAddress)
    ensures
        r == unmapped(ip),
{
    match ip {
        IpAddress::V6(n) => if n / 0x1_0000_0000 == 0xffff {
            IpAddress::V4((n % 0x1_0000_0000) as u32)
        } else {
            ip
        },
        IpAddress::V4(_) => ip,
    }
}

/// A domain's wire form names the root: its first label is empty.
pub open spec fn names_root(wire: Seq<char>) -> bool {
    wire.len() > 0 && wire[0] == '\0'
}

/// `s` in brackets, with at least the two brackets.
pub open spec fn bracketed(s: Seq<char>) -> bool {
    s.len() >= 2 && s[0] == '[' && s.last() == ']'
}

/// The text of a bracketed host that is parsed as an IPv6 address.
pub open spec fn host_bracket_text_spec(s: Seq<char>) -> Option<Seq<char>> {
    if bracketed(s) {
        Some(zone_stripped(s.subrange(1, s.len() - 1)))
    } else {
        None
    }
}

/// `s` without one trailing `.`.
pub open spec fn undotted(s: Seq<char>) -> Seq<char> {
    match strip_suffix_char(s, '.') {
        Some(t) => t,
        None => s,
    }
}

/// The text of a host that is parsed as an IP address: a trailing `.` and
/// a zone index dropped.
pub open spec fn host_ip_text_spec(s: Seq<char>) -> Seq<char> {
    zone_stripped(undotted(s))
}

/// The host `s` names, given what the address parses answered: `bracket_ip`
/// for its bracketed text, `ip` for its address text. A bracketed host is
/// an IPv6 address; an address is kept unless a trailing `.` follows it;
/// then a network; else a domain, lower-cased, with subdomains when it
/// starts with `*.` and wildcards are enabled; the root is refused.
pub open spec fn host_spec(
    s: Seq<char>,
    wildcards: SubdomainWildcards,
    bracket_ip: Option<u128>,
    ip: Option<IpAddress>,
) -> Result<HostView, HostParseErrorView> {
    if bracketed(s) {
        match bracket_ip {
            Some(n) => Ok(HostView::Ip(unmapped(IpAddress::V6(n)))),
            None => Err(HostParseErrorView::InvalidIpv6(s)),
        }
    } else if ip is Some {
        if strip_suffix_char(s, '.') is Some {
            Err(HostParseErrorView::InvalidHost(undotted(s)))
        } else {
            Ok(HostView::Ip(unmapped(ip->0)))
        }
    } else if ip_network_parsed(s) is Some {
        Ok(HostView::IpSubnet(ip_network_parsed(s)->0))
    } else {
        let lower = ascii_lower(s);
        let wild = wildcards == SubdomainWildcards::Enabled && "*."@.is_prefix_of(lower);
        let name = if wild {
            lower.skip(2)
        } else {
            lower
        };
        match fqdn_parsed(name) {
            Err(e) => Err(HostParseErrorView::Fqdn { error: e, host: s }),
            Ok(wire) => if names_root(wire) {
                Err(HostParseErrorView::InvalidEmptyHost(s))
            } else if wild {
                Ok(HostView::FqdnWithSubdomainWildcard(wire))
            } else {
                Ok(HostView::Fqdn(wire))
            },
        }
    }
}

pub open spec fn host_result_view(r: Result<Host, HostParseError>) -> Result<HostView, HostParseErrorView> {
    match r {
        Ok(h) => Ok(h@),
        Err(e) => Err(e@),
    }
}

/// The text of a bracketed host that its parse hands to IPv6 address
/// parsing.
pub fn host_bracket_text(s: &str) -> (r: Option<String>)
    ensures
        opt_owned_view(r) == host_bracket_text_spec(s@),
{
    let n = s.unicode_len();
    if n >= 2 && s.get_char(0) == '[' && s.get_char(n - 1) == ']' {
        let inner = substring(s, 1, n - 1);
        Some(strip_zone(inner.as_str()))
    } else {
        None
    }
}

/// The text of a host that its parse hands to IP address parsing.
pub fn host_ip_text(s: &str) -> (r: String)
    ensures
        r@ == host_ip_text_spec(s@),
{
    let n = s.unicode_len();
    if n > 0 && s.get_char(n - 1) == '.' {
        let t = substring(s, 0, n - 1);
        assert(t@ =~= s@.drop_last());
        strip_zone(t.as_str())
    } else {
        strip_zone(s)
    }
}

/// Parses a host, given what IP address parsing answered for the texts
/// `host_bracket_text` and `host_ip_text` name.
pub fn parse_host(
    s: &str,
    wildcards: SubdomainWildcards,
    bracket_ip: Option<u128>,
    ip: Option<IpAddress>,
) -> (r: Result<Host, HostParseError>)
    ensures
        host_result_view(r) == host_spec(s@, wildcards, bracket_ip, ip),
{
    proof {
        reveal_strlit("*.");
    }
    let n = s.unicode_len();
    if n >= 2 && s.get_char(0) == '[' && s.get_char(n - 1) == ']' {
        return match bracket_ip {
            Some(v6) => Ok(Host::Ip(normalize_ip(IpAddress::V6(v6)))),
            None => Err(HostParseError::InvalidIpv6(to_owned(s))),
        };
    }
    if let Some(a) = ip {
        if n > 0 && s.get_char(n - 1) == '.' {
            let t = substring(s, 0, n - 1);
            assert(t@ =~= s@.drop_last());
            return Err(HostParseError::InvalidHost(t));
        }
        return Ok(Host::Ip(normalize_ip(a)));
    }
    if let Some(net) = parse_ip_network(s) {
        return Ok(Host::IpSubnet(net));
    }
    let lower = to_ascii_lower(s);
    let wild = wildcards == SubdomainWildcards::Enabled && starts_with(lower.as_str(), "*.");
    let name = if wild {
        substring(lower.as_str(), 2, lower.unicode_len())
    } else {
        lower
    };
    match parse_fqdn(name.as_str()) {
        Err(e) => Err(HostParseError::Fqdn { error: e, host: to_owned(s) }),
        Ok(wire) => {
            let root = wire.unicode_len() > 0 && wire.get_char(0) == '\0';
            if root {
                Err(HostParseError::InvalidEmptyHost(to_owned(s)))
            } else if wild {
                Ok(Host::FqdnWithSubdomainWildcard(wire))
            } else {
                Ok(Host::Fqdn(wire))
            }
        },
    }
}

/// The address text of a descriptor in brackets, up to its first `]`,
/// that its parse hands to IPv6 address parsing.
pub open spec fn net_bracket_text_spec(h: Seq<char>) -> Option<Seq<char>> {
    if h.len() > 0 && h[0] == '[' {
        match first_index_of(h, ']') {
            Some(i) => Some(zone_stripped(h.subrange(1, i))),
            None => None,
        }
    } else {
        None
    }
}

/// The part of a descriptor's text before its first `:`.
pub open spec fn net_host_part_spec(h: Seq<char>) -> Seq<char> {
    before_colon(h)
}

/// What a descriptor's text that is not `vsock:`, `unix:` or a URL parses
/// to, given what address parsing answered: `socket` for the whole text as
/// a socket address, `bracket_ip` for `net_bracket_text`, `host_ip` for the
/// address text of the host part. A socket address comes first; then a
/// bracketed IPv6 address with an optional port; then a host and an
/// optional port after the first `:`.
pub open spec fn net_rest_spec(
    h: Seq<char>,
    wildcards: SubdomainWildcards,
    socket: Option<(IpAddress, u16)>,
    bracket_ip: Option<u128>,
    host_ip: Option<IpAddress>,
) -> Result<(HostView, Option<u32>), NetParseErrorView> {
    if let Some((address, socket_port)) = socket {
        Ok((HostView::Ip(unmapped(address)), Some(socket_port as u32)))
    } else if h.len() > 0 && h[0] == '[' {
        match first_index_of(h, ']') {
            None => Err(NetParseErrorView::InvalidHost(h)),
            Some(i) => {
                let ip_str = h.subrange(1, i);
                let after = h.skip(i + 1);
                match bracket_ip {
                    None => Err(NetParseErrorView::InvalidIpv6 { hostname: h, ip: ip_str }),
                    Some(n) => {
                        let host = HostView::Ip(unmapped(IpAddress::V6(n)));
                        if after.len() > 0 && after[0] == ':' {
                            match parsed_u16(after.skip(1)) {
                                Some(p) => Ok((host, Some(p as u32))),
                                None => Err(NetParseErrorView::InvalidPort { hostname: h, port: after.skip(1) }),
                            }
                        } else if after.len() == 0 {
                            Ok((host, None))
                        } else {
                            Err(NetParseErrorView::InvalidHost(h))
                        }
                    },
                }
            },
        }
    } else {
        let port = match first_index_of(h, ':') {
            Some(i) => h.skip(i + 1),
            None => Seq::empty(),
        };
        if first_index_of(h, ':') is Some && port.len() == 0 {
            Err(NetParseErrorView::EmptyPort(h))
        } else {
            match host_spec(before_colon(h), wildcards, None, host_ip) {
                Err(e) => Err(NetParseErrorView::Host(e)),
                Ok(host) => if port.len() == 0 {
                    Ok((host, None))
                } else {
                    match parsed_u16(port) {
                        Some(p) => Ok((host, Some(p as u32))),
                        None => if has_char(port, ':') {
                            Err(NetParseErrorView::Ipv6MissingSquareBrackets(h))
                        } else {
                            Err(NetParseErrorView::InvalidPort { hostname: h, port })
                        },
                    }
                },
            }
        }
    }
}

pub open spec fn net_rest_view(r: Result<(Host, Option<u32>), NetParseError>) -> Result<
    (HostView, Option<u32>),
    NetParseErrorView,
> {
    match r {
        Ok((h, p)) => Ok((h@, p)),
        Err(e) => Err(e@),
    }
}

/// The text that the parse of a descriptor in brackets hands to IPv6
/// address parsing.
pub fn net_bracket_text(hostname: &str) -> (r: Option<String>)
    ensures
        opt_owned_view(r) == net_bracket_text_spec(hostname@),
{
    let n = hostname.unicode_len();
    if n > 0 && hostname.get_char(0) == '[' {
        match find_char(hostname, ']') {
            Some(i) => {
                proof {
                    lemma_first_index_of(hostname@, ']');
                }
                let inner = substring(hostname, 1, i);
                Some(strip_zone(inner.as_str()))
            },
            None => None,
        }
    } else {
        None
    }
}

/// The host part of a descriptor's text: up to its first `:`.
pub fn net_host_part(hostname: &str) -> (r: String)
    ensures
        r@ == net_host_part_spec(hostname@),
{
    split_colon(hostname).0
}

/// Parses a descriptor's text that is not `vsock:`, `unix:` or a URL,
/// given what address parsing answered for the whole text as a socket
/// address, for `net_bracket_text`, and for the address text of the host
/// part.
pub fn parse_net_descriptor_rest(
    hostname: &str,
    wildcards: SubdomainWildcards,
    socket: Option<(IpAddress, u16)>,
    bracket_ip: Option<u128>,
    host_ip: Option<IpAddress>,
) -> (r: Result<(Host, Option<u32>), NetParseError>)
    ensures
        net_rest_view(r) == net_rest_spec(hostname@, wildcards, socket, bracket_ip, host_ip),
{
    if let Some((a, p)) = socket {
        return Ok((Host::Ip(normalize_ip(a)), Some(p as u32)));
    }
    let n = hostname.unicode_len();
    if n > 0 && hostname.get_char(0) == '[' {
        let i = match find_char(hostname, ']') {
            Some(i) => i,
            None => return Err(NetParseError::InvalidHost(to_owned(hostname))),
        };
        proof {
            lemma_first_index_of(hostname@, ']');
        }
        let v6 = match bracket_ip {
            Some(v6) => v6,
            None => return Err(
                NetParseError::InvalidIpv6 { hostname: to_owned(hostname), ip: substring(hostname, 1, i) },
            ),
        };
        let host = Host::Ip(normalize_ip(IpAddress::V6(v6)));
        let after = substring(hostname, i + 1, n);
        if i + 1 < n && hostname.get_char(i + 1) == ':' {
            let port = substring(hostname, i + 2, n);
            assert(port@ =~= after@.skip(1));
            return match parse_u16(port.as_str()) {
                Some(p) => Ok((host, Some(p as u32))),
                None => Err(NetParseError::InvalidPort { hostname: to_owned(hostname), port }),
            };
        } else if i + 1 == n {
            return Ok((host, None));
        } else {
            return Err(NetParseError::InvalidHost(to_owned(hostname)));
        }
    }
    let (host_text, port_text) = split_colon(hostname);
    if port_text_is_empty_after_colon(&port_text) {
        return Err(NetParseError::EmptyPort(to_owned(hostname)));
    }
    let port = match port_text {
        Some(p) => p,
        None => String::new(),
    };
    let host = match parse_host(host_text.as_str(), wildcards, None, host_ip) {
        Ok(h) => h,
        Err(e) => return Err(NetParseError::Host(e)),
    };
    if port.unicode_len() == 0 {
        return Ok((host, None));
    }
    match parse_u16(port.as_str()) {
        Some(p) => Ok((host, Some(p as u32))),
        None => if contains_char(port.as_str(), ':') {
            Err(NetParseError::Ipv6MissingSquareBrackets(to_owned(hostname)))
        } else {
            Err(NetParseError::InvalidPort { hostname: to_owned(hostname), port })
        },
    }
}

/// A `:` with nothing after it.
fn port_text_is_empty_after_colon(port: &Option<String>) -> (r: bool)
    ensures
        r == (port is Some && port->0@.len() == 0),
{
    match port {
        Some(p) => p.unicode_len() == 0,
        None => false,
    }
}

/// What `url::Url::parse` makes of `text` when it parses: the URL's host as
/// `Url::host_str` gives it, and its port as `Url::port_or_known_default`
/// gives it (the written port, else the scheme's well-known one).
pub uninterp spec fn url_host_port(text: Seq<char>) -> Option<(Option<Seq<char>>, Option<u16>)>;

pub open spec fn url_parts_view(r: Option<(Option<String>, Option<u16>)>) -> Option<(Option<Seq<char>>, Option<u16>)> {
    match r {
        None => None,
        Some((h, p)) => Some((opt_owned_view(h), p)),
    }
}

/// Calls `url::Url::parse`, then `host_str` and `port_or_known_default`;
/// the answer is named by `url_host_port`.
#[verifier::external_body]
fn parse_url_parts(text: &str) -> (r: Option<(Option<String>, Option<u16>)>)
    ensures
        url_parts_view(r) == url_host_port(text@),
{
    match url::Url::parse(text) {
        Ok(u) => Some((u.host_str().map(|h| h.to_string()), u.port_or_known_default())),
        Err(_) => None,
    }
}

/// The host and port a URL names, the port being the scheme's well-known
/// one when none is written; `None` when `text` is not a URL.
pub fn url_parts(text: &str) -> (r: Option<(Option<String>, Option<u16>)>)
    ensures
        url_parts_view(r) == url_host_port(text@),
{
    parse_url_parts(text)
}

/// Why a URL names no network descriptor.
#[derive(Debug, PartialEq, Eq)]
pub enum NetDescriptorFromUrlParseError {
    /// The URL has no host.
    MissingHost(String),
    /// Its host was refused.
    Host(HostParseError),
}

pub enum FromUrlErrorView {
    MissingHost(Seq<char>),
    Host(HostParseErrorView),
}

impl View for NetDescriptorFromUrlParseError {
    type V = FromUrlErrorView;

    open spec fn view(&self) -> FromUrlErrorView {
        match self {
            NetDescriptorFromUrlParseError::MissingHost(u) => FromUrlErrorView::MissingHost(u@),
            NetDescriptorFromUrlParseError::Host(e) => FromUrlErrorView::Host(e@),
        }
    }
}

pub open spec fn opt_str_view(o: Option<&str>) -> Option<Seq<char>> {
    match o {
        Some(s) => Some(s@),
        None => None,
    }
}

pub open spec fn widened_port(port: Option<u16>) -> Option<u32> {
    match port {
        Some(p) => Some(p as u32),
        None => None,
    }
}

/// A URL's descriptor is shown as the URL names its host, and its port.
pub open spec fn url_display(host: Seq<char>, port: Option<u16>) -> Seq<char> {
    match port {
        Some(p) => host + ":"@ + decimal(p as int),
        None => host,
    }
}

/// The descriptor of the URL `url`, whose host and port are `host` and
/// `port`, given what address parsing answered for the host's texts: no
/// host is an error; else the host parsed as a query host, and the port.
pub open spec fn from_url_spec(
    url: Seq<char>,
    host: Option<Seq<char>>,
    port: Option<u16>,
    bracket: Option<u128>,
    ip: Option<IpAddress>,
) -> Result<NetView, FromUrlErrorView> {
    match host {
        None => Err(FromUrlErrorView::MissingHost(url)),
        Some(h) => match host_spec(h, SubdomainWildcards::Disabled, bracket, ip) {
            Ok(hv) => Ok(NetView { host: hv, port: widened_port(port), display: url_display(h, port) }),
            Err(e) => Err(FromUrlErrorView::Host(e)),
        },
    }
}

pub open spec fn from_url_view(r: Result<NetDescriptor, NetDescriptorFromUrlParseError>) -> Result<
    NetView,
    FromUrlErrorView,
> {
    match r {
        Ok(d) => Ok(d@),
        Err(e) => Err(e@),
    }
}

/// The network descriptor of a URL, from the host and port `url_parts`
/// gives for it and what address parsing answered for `host_bracket_text`
/// and `host_ip_text` of the host.
pub fn net_descriptor_from_url(
    url: &str,
    host: Option<&str>,
    port: Option<u16>,
    bracket: Option<u128>,
    ip: Option<IpAddress>,
) -> (r: Result<NetDescriptor, NetDescriptorFromUrlParseError>)
    ensures
        from_url_view(r) == from_url_spec(url@, opt_str_view(host), port, bracket, ip),
{
    let h = match host {
        None => return Err(NetDescriptorFromUrlParseError::MissingHost(to_owned(url))),
        Some(h) => h,
    };
    let parsed = match parse_host(h, SubdomainWildcards::Disabled, bracket, ip) {
        Ok(x) => x,
        Err(e) => return Err(NetDescriptorFromUrlParseError::Host(e)),
    };
    proof {
        reveal_strlit(":");
    }
    let display = match port {
        Some(p) => {
            let a = concat(h, ":");
            concat(a.as_str(), decimal_u32(p as u32).as_str())
        },
        None => to_owned(h),
    };
    Ok(NetDescriptor { host: parsed, port: widened_port_exec(port), display })
}

fn widened_port_exec(port: Option<u16>) -> (r: Option<u32>)
    ensures
        r == widened_port(port),
{
    match port {
        Some(p) => Some(p as u32),
        None => None,
    }
}

/// The import descriptor of a URL, as `net_descriptor_from_url` makes its
/// network descriptor.
pub fn import_descriptor_from_url(
    url: &str,
    host: Option<&str>,
    port: Option<u16>,
    bracket: Option<u128>,
    ip: Option<IpAddress>,
) -> (r: Result<ImportDescriptor, NetDescriptorFromUrlParseError>)
    ensures
        from_url_view(
            match r {
                Ok(d) => Ok(d.0),
                Err(e) => Err(e),
            },
        ) == from_url_spec(url@, opt_str_view(host), port, bracket, ip),
{
    match net_descriptor_from_url(url, host, port, bracket, ip) {
        Ok(d) => Ok(ImportDescriptor(d)),
        Err(e) => Err(e),
    }
}

/// An import grant that names a port covers only queries of that port.
pub proof fn lemma_import_grant_keeps_its_port(q: NetView, a: NetView)
    requires
        <ImportDescriptor as QueryDescriptor<ImportDescriptor>>::matches_allow_spec(q, a),
        a.port is Some,
    ensures
        q.port == a.port,
{
}

/// A network grant that names a port covers only queries of that port.
pub proof fn lemma_net_grant_keeps_its_port(q: NetView, a: NetView)
    requires
        <NetDescriptor as QueryDescriptor<NetDescriptor>>::matches_allow_spec(q, a),
        a.port is Some,
    ensures
        q.port == a.port,
{
}

/// A network grant covers a query of the very same host and port, for
/// every host but a network (which covers addresses, not networks): a
/// domain, a wildcard domain, an address, a vsock or a unix socket.
pub proof fn lemma_net_grant_covers_itself(d: NetView)
    requires
        !(d.host is IpSubnet),
    ensures
        <NetDescriptor as QueryDescriptor<NetDescriptor>>::matches_allow_spec(d, d),
        <ImportDescriptor as QueryDescriptor<ImportDescriptor>>::matches_allow_spec(d, d),
        <NetDescriptor as QueryDescriptor<NetDescriptor>>::matches_deny_spec(d, d),
{
}

/// A grant for a domain, an address, a vsock or a unix socket covers only
/// queries of that same host; a grant that names no port covers every
/// port of its host.
pub proof fn lemma_net_grant_covers_its_host(q: NetView, a: NetView)
    ensures
        <NetDescriptor as QueryDescriptor<NetDescriptor>>::matches_allow_spec(q, a) && (a.host is Fqdn || a.host is Ip
            || a.host is Vsock || a.host is UnixSocket) ==> q.host == a.host,
        <ImportDescriptor as QueryDescriptor<ImportDescriptor>>::matches_allow_spec(q, a) && (a.host is Fqdn
            || a.host is Ip || a.host is Vsock || a.host is UnixSocket) ==> q.host == a.host,
        a.port is None && q.host == a.host && !(a.host is IpSubnet) ==> <NetDescriptor as QueryDescriptor<
            NetDescriptor,
        >>::matches_allow_spec(q, a) && <ImportDescriptor as QueryDescriptor<ImportDescriptor>>::matches_allow_spec(
            q,
            a,
        ),
{
}

} // verus!
