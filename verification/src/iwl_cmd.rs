//! The host commands the 4965 driver sends (the command frame, the RXON
//! configurations, the scan request), the packets it takes from the
//! receive ring, and what each notification does to the driver state.
use vstd::prelude::*;
use crate::iwl4965::{Iwl4965, ies_safe, ie_end, notif_safe, entry_end, IE_VENDOR, views_of, notif_walk};
use crate::wifi::{Fg, WifiSecurity, WifiState};

verus! {

/// Command ids.
pub const CMD_ALIVE: u8 = 0x01;
pub const CMD_ERROR: u8 = 0x02;
pub const CMD_RXON: u8 = 0x10;
pub const CMD_RXON_ASSOC: u8 = 0x11;
pub const CMD_TX: u8 = 0x1C;
pub const CMD_SCAN: u8 = 0x80;
pub const CMD_SCAN_RESULTS: u8 = 0x83;
pub const CMD_SCAN_COMPLETE: u8 = 0x84;
/// The command queue, the largest command payload, receive buffer size.
pub const CMD_QUEUE: u8 = 4;
pub const MAX_CMD_PAYLOAD: usize = 512;
pub const RX_BUF_SIZE: usize = 4096;

/// A host command frame: id, flags 0, slot index, queue, then the payload.
pub fn hcmd_frame(cmd: u8, idx: u8, qid: u8, data: &[u8]) -> (v: Vec<u8>)
    ensures
        v@ == seq![cmd, 0u8, idx, qid] + data@,
{
    let mut v: Vec<u8> = Vec::new();
    v.push(cmd);
    v.push(0);
    v.push(idx);
    v.push(qid);
    let mut i: usize = 0;
    while i < data.len()
        invariant
            i <= data@.len(),
            v@ == seq![cmd, 0u8, idx, qid] + data@.subrange(0, i as int),
        decreases data@.len() - i,
    {
        v.push(data[i]);
        i = i + 1;
        assert(v@ =~= seq![cmd, 0u8, idx, qid] + data@.subrange(0, i as int));
    }
    assert(data@.subrange(0, data@.len() as int) =~= data@);
    v
}

/// Little-endian bytes of a 16-bit and a 32-bit value.
pub open spec fn le16_bytes(x: int) -> Seq<u8> {
    seq![(x % 256) as u8, ((x / 256) % 256) as u8]
}

pub open spec fn le32_bytes(x: int) -> Seq<u8> {
    le16_bytes(x % 65536) + le16_bytes(x / 65536)
}

pub open spec fn zeros(n: nat) -> Seq<u8> {
    Seq::new(n, |i: int| 0u8)
}

pub open spec fn ff6() -> Seq<u8> {
    seq![0xFFu8, 0xFF, 0xFF, 0xFF, 0xFF, 0xFF]
}

/// Receive chain of the RXON and scan commands.
pub const RX_CHAIN: u16 = 0x0037;
/// RXON flags (band, auto-detect, short slot, TSF) and filter flags
/// (promiscuous, control frames, accept multicast, beacons).
pub const RXON_FLAGS: u32 = 0x0000_8031;
pub const RXON_FILTER: u32 = 0x0000_0047;

/// The RXON that puts the adapter on channel 1 as a station for scanning:
/// own address, broadcast BSSID and wildcard address, the receive chain,
/// rates, flags and filter.
pub open spec fn rxon_scan_spec(mac: Seq<u8>) -> Seq<u8> {
    mac + zeros(2) + ff6() + zeros(2) + ff6() + zeros(2) + seq![1u8, 0u8] + le16_bytes(RX_CHAIN as int)
        + seq![0x15u8, 0x0Fu8] + zeros(2) + le32_bytes(RXON_FLAGS as int) + le32_bytes(RXON_FILTER as int)
        + seq![1u8, 0u8, 0u8, 0u8]
}

fn push_all(v: &mut Vec<u8>, s: &[u8])
    ensures
        final(v)@ == old(v)@ + s@,
{
    let mut i: usize = 0;
    while i < s.len()
        invariant
            i <= s@.len(),
            v@ == old(v)@ + s@.subrange(0, i as int),
        decreases s@.len() - i,
    {
        v.push(s[i]);
        i = i + 1;
        assert(v@ =~= old(v)@ + s@.subrange(0, i as int));
    }
    assert(s@.subrange(0, s@.len() as int) =~= s@);
}

fn push_zeros(v: &mut Vec<u8>, n: usize)
    ensures
        final(v)@ == old(v)@ + zeros(n as nat),
{
    let mut i: usize = 0;
    while i < n
        invariant
            i <= n,
            v@ == old(v)@ + zeros(i as nat),
        decreases n - i,
    {
        v.push(0);
        i = i + 1;
        assert(v@ =~= old(v)@ + zeros(i as nat));
    }
}

fn push_le16(v: &mut Vec<u8>, x: u16)
    ensures
        final(v)@ == old(v)@ + le16_bytes(x as int),
{
    v.push((x % 256) as u8);
    v.push((x / 256) as u8);
    assert(final(v)@ =~= old(v)@ + le16_bytes(x as int));
}

fn push_le32(v: &mut Vec<u8>, x: u32)
    ensures
        final(v)@ == old(v)@ + le32_bytes(x as int),
{
    push_le16(v, (x % 65536) as u16);
    push_le16(v, (x / 65536) as u16);
    assert(final(v)@ =~= old(v)@ + le32_bytes(x as int));
}

pub fn rxon_scan_config(mac: [u8; 6]) -> (v: Vec<u8>)
    ensures
        v@ == rxon_scan_spec(mac@),
        v@.len() == 44,
{
    let ff: [u8; 6] = [0xFF; 6];
    assert(ff@ =~= ff6());
    let mut v: Vec<u8> = Vec::new();
    push_all(&mut v, &mac);
    push_zeros(&mut v, 2);
    push_all(&mut v, &ff);
    push_zeros(&mut v, 2);
    push_all(&mut v, &ff);
    push_zeros(&mut v, 2);
    v.push(1);
    v.push(0);
    push_le16(&mut v, RX_CHAIN);
    v.push(0x15);
    v.push(0x0F);
    push_zeros(&mut v, 2);
    push_le32(&mut v, RXON_FLAGS);
    push_le32(&mut v, RXON_FILTER);
    v.push(1);
    push_zeros(&mut v, 3);
    assert(v@ =~= rxon_scan_spec(mac@));
    v
}

/// The RXON that joins a network: its BSSID, own address, the BSSID
/// again, station mode, rates and the network's channel, zero-padded to
/// 56 bytes.
pub open spec fn rxon_assoc_spec(bssid: Seq<u8>, mac: Seq<u8>, channel: u8) -> Seq<u8> {
    bssid + zeros(2) + mac + zeros(2) + bssid + seq![1u8, 0u8, 3u8, 3u8, channel] + zeros(29)
}

pub fn rxon_assoc(bssid: [u8; 6], mac: [u8; 6], channel: u8) -> (v: Vec<u8>)
    ensures
        v@ == rxon_assoc_spec(bssid@, mac@, channel),
        v@.len() == 56,
{
    let mut v: Vec<u8> = Vec::new();
    push_all(&mut v, &bssid);
    push_zeros(&mut v, 2);
    push_all(&mut v, &mac);
    push_zeros(&mut v, 2);
    push_all(&mut v, &bssid);
    v.push(1);
    v.push(0);
    v.push(3);
    v.push(3);
    v.push(channel);
    push_zeros(&mut v, 29);
    assert(v@ =~= rxon_assoc_spec(bssid@, mac@, channel));
    v
}

/// Channels scanned: 2.4 GHz 1 to 11 and 5 GHz 36 to 48.
pub open spec fn scan_channels() -> Seq<u8> {
    seq![1u8, 2, 3, 4, 5, 6, 7, 8, 9, 10, 11, 36, 40, 44, 48]
}

/// Scan request header (224 bytes): channel list length and count,
/// receive chain, quiet time and threshold, flags, filter, the probe's
/// transmit command and rate, broadcast address, and one direct probe.
pub open spec fn scan_header(n: int) -> Seq<u8> {
    le16_bytes(n * 12) + seq![0u8, n as u8] + zeros(6) + le16_bytes(RX_CHAIN as int) + le32_bytes(200000)
        + le32_bytes(100000) + le32_bytes(0x31) + le32_bytes(RXON_FILTER as int) + zeros(4) + le32_bytes(0x0D)
        + zeros(8) + le32_bytes(0x0400_000D) + seq![0xFFu8] + zeros(23) + le32_bytes(0xFFFF_FFFF) + zeros(6)
        + seq![1u8] + zeros(141)
}

/// One channel entry of a scan request: passive, 20 and 120 time units.
pub open spec fn scan_entry(ch: u8) -> Seq<u8> {
    zeros(4) + le16_bytes(ch as int) + seq![0x28u8, 110u8] + le16_bytes(20) + le16_bytes(120)
}

pub open spec fn scan_entries(chs: Seq<u8>) -> Seq<u8>
    decreases chs.len(),
{
    if chs.len() == 0 { Seq::<u8>::empty() } else { scan_entries(chs.drop_last()) + scan_entry(chs.last()) }
}

pub fn scan_request() -> (v: Vec<u8>)
    ensures
        v@ == scan_header(15) + scan_entries(scan_channels()),
{
    let chs: [u8; 15] = [1, 2, 3, 4, 5, 6, 7, 8, 9, 10, 11, 36, 40, 44, 48];
    assert(chs@ =~= scan_channels());
    let mut v: Vec<u8> = Vec::new();
    push_le16(&mut v, 15 * 12);
    v.push(0);
    v.push(15);
    push_zeros(&mut v, 6);
    push_le16(&mut v, RX_CHAIN);
    push_le32(&mut v, 200000);
    push_le32(&mut v, 100000);
    push_le32(&mut v, 0x31);
    push_le32(&mut v, RXON_FILTER);
    push_zeros(&mut v, 4);
    push_le32(&mut v, 0x0D);
    push_zeros(&mut v, 8);
    push_le32(&mut v, 0x0400_000D);
    v.push(0xFF);
    push_zeros(&mut v, 23);
    push_le32(&mut v, 0xFFFF_FFFF);
    push_zeros(&mut v, 6);
    v.push(1);
    push_zeros(&mut v, 141);
    assert(v@ =~= scan_header(15));
    let ghost head = v@;
    let mut i: usize = 0;
    while i < 15
        invariant
            i <= 15,
            chs@ == scan_channels(),
            v@ == head + scan_entries(chs@.subrange(0, i as int)),
        decreases 15 - i,
    {
        let ghost before = v@;
        push_zeros(&mut v, 4);
        push_le16(&mut v, chs[i] as u16);
        v.push(0x28);
        v.push(110);
        push_le16(&mut v, 20);
        push_le16(&mut v, 120);
        assert(v@ =~= before + scan_entry(chs@[i as int]));
        assert(chs@.subrange(0, i + 1).drop_last() =~= chs@.subrange(0, i as int));
        i = i + 1;
        assert(v@ =~= head + scan_entries(chs@.subrange(0, i as int)));
    }
    assert(chs@.subrange(0, 15) =~= chs@);
    v
}

/// A receive buffer as a packet: (command id, the bytes up to the end
/// of the packet), when it holds an 8-byte header and a length from 1 to
/// 4092.
pub open spec fn rx_packet_spec(b: Seq<u8>) -> Option<(u8, Seq<u8>)> {
    if b.len() < 8 {
        None
    } else {
        let len = crate::util::le16(b, 0);
        if len == 0 || len > RX_BUF_SIZE - 4 {
            None
        } else {
            let end = if len + 4 < b.len() { len + 4 } else { b.len() as int };
            Some((b[4], b.subrange(0, end)))
        }
    }
}

pub fn rx_packet(b: &[u8]) -> (r: Option<(u8, Vec<u8>)>)
    ensures
        match rx_packet_spec(b@) {
            None => r is None,
            Some((c, s)) => r matches Some((c2, v)) && c2 == c && v@ == s,
        },
{
    if b.len() < 8 {
        return None;
    }
    let len = crate::util::read_le16(b, 0) as usize;
    if len == 0 || len > RX_BUF_SIZE - 4 {
        return None;
    }
    let end = if len + 4 < b.len() { len + 4 } else { b.len() };
    Some((b[4], crate::iwl4965::copy_range(b, 0, end)))
}

/// Whether the information elements from `i` on can be read.
fn ies_check(d: &[u8]) -> (ok: bool)
    ensures
        ok == ies_safe(d@, 0),
{
    let mut i: usize = 0;
    while d.len() - i >= 2
        invariant
            i <= d@.len(),
            ies_safe(d@, 0) == ies_safe(d@, i as int),
        decreases d@.len() - i,
    {
        if d[i] == IE_VENDOR && d[i + 1] >= 4 {
            let s = i + 2;
            let readable = s < d.len() && (d[s] != 0x00 || (s + 1 < d.len() && (d[s + 1] != 0x50 || (s + 2
                < d.len() && (d[s + 2] != 0xF2 || s + 3 < d.len())))));
            if !readable {
                return false;
            }
        }
        let ghost old_i = i as int;
        let l = d[i + 1] as usize;
        i = if l < d.len() - i - 2 { i + 2 + l } else { d.len() };
        assert(i as int == ie_end(d@, old_i));
    }
    true
}

/// Whether a scan notification can be read: every entry's elements can.
pub fn scan_notification_readable(d: &[u8]) -> (ok: bool)
    ensures
        ok == (d@.len() >= 12 ==> notif_safe(d@, 12, d@[8] as int)),
{
    if d.len() < 12 {
        return true;
    }
    let count = d[8] as usize;
    let mut off: usize = 12;
    let mut n: usize = 0;
    while n < count
        invariant
            n <= count,
            count == d@[8],
            12 <= off <= d@.len(),
            notif_safe(d@, 12, d@[8] as int) == notif_safe(d@, off as int, (count - n) as int),
        decreases count - n,
    {
        if d.len() - off < 20 {
            return true;
        }
        let ie_len = crate::util::read_le16(d, off + 8) as usize;
        let s = off + 10;
        let e = if ie_len < d.len() - s { s + ie_len } else { d.len() };
        assert(e as int == entry_end(d@, off as int));
        let region = crate::iwl4965::copy_range(d, s, e);
        if !ies_check(region.as_slice()) {
            return false;
        }
        off = e;
        n = n + 1;
    }
    true
}

impl Iwl4965 {
    /// What a received packet does: ALIVE marks the firmware alive; scan
    /// results are added to the list; a scan response or completion ends
    /// the scan (connected when a network is joined, else disconnected); a
    /// transmit response counts a packet; a received frame (0xC1, 0xC3) of
    /// more than 32 bytes is counted and, while fewer than 64 wait, queued
    /// without its 16-byte header.  Anything else changes nothing.
    pub fn process_rx_packet(&mut self, cmd: u8, data: &[u8])
        requires
            cmd == CMD_SCAN_RESULTS && data@.len() >= 12 ==> notif_safe(data@, 12, data@[8] as int),
            old(self).stats.tx_packets < u64::MAX,
            old(self).stats.rx_packets < u64::MAX,
            old(self).stats.rx_bytes + data@.len() <= u64::MAX,
        ensures
            cmd == CMD_ALIVE ==> final(self).fw_alive,
            cmd == CMD_SCAN_RESULTS ==> (data@.len() < 12 ==> views_of(final(self).scan_results@) == views_of(
                old(self).scan_results@)) && (data@.len() >= 12 ==> views_of(final(self).scan_results@) == notif_walk(
                data@,
                12,
                data@[8] as int,
                views_of(old(self).scan_results@),
            )),
            cmd == CMD_SCAN || cmd == CMD_SCAN_COMPLETE ==> !final(self).scanning && final(self).wifi_state == (if old(
                self,
            ).connected_ssid is Some { WifiState::Connected } else { WifiState::Disconnected }),
            cmd == CMD_TX ==> final(self).stats.tx_packets == old(self).stats.tx_packets + 1,
            (cmd == 0xC1 || cmd == 0xC3) && data@.len() > 32 ==> {
                &&& final(self).stats.rx_packets == old(self).stats.rx_packets + 1
                &&& final(self).stats.rx_bytes == old(self).stats.rx_bytes + data@.len() - 16
                &&& final(self).rx_pending@ == if old(self).rx_pending@.len() < 64 {
                    old(self).rx_pending@.push(final(self).rx_pending@.last())
                } else {
                    old(self).rx_pending@
                }
                &&& old(self).rx_pending@.len() < 64 ==> final(self).rx_pending@.last()@ == data@.subrange(16, data@.len() as int)
            },
            !(cmd == CMD_ALIVE || cmd == CMD_SCAN_RESULTS || cmd == CMD_SCAN || cmd == CMD_SCAN_COMPLETE || cmd == CMD_TX
                || ((cmd == 0xC1 || cmd == 0xC3) && data@.len() > 32)) ==> final(self).fw_alive == old(self).fw_alive
                && final(self).scanning == old(self).scanning && final(self).wifi_state == old(self).wifi_state
                && final(self).stats == old(self).stats && final(self).rx_pending@ == old(self).rx_pending@,
    {
        if cmd == CMD_ALIVE {
            self.fw_alive = true;
        } else if cmd == CMD_SCAN_RESULTS {
            self.parse_scan_notification(data);
        } else if cmd == CMD_SCAN || cmd == CMD_SCAN_COMPLETE {
            self.scanning = false;
            self.wifi_state = if self.connected_ssid.is_some() { WifiState::Connected } else { WifiState::Disconnected };
        } else if cmd == CMD_TX {
            self.stats.tx_packets = self.stats.tx_packets + 1;
        } else if (cmd == 0xC1 || cmd == 0xC3) && data.len() > 32 {
            let frame = crate::iwl4965::copy_range(data, 16, data.len());
            self.stats.rx_packets = self.stats.rx_packets + 1;
            self.stats.rx_bytes = self.stats.rx_bytes + frame.len() as u64;
            if self.rx_pending.len() < 64 {
                self.rx_pending.push(frame);
            }
        }
    }
}

/// Index of the first scan entry named `ssid`.
pub open spec fn network_index(list: Seq<Fg>, ssid: Seq<char>) -> int
    decreases list.len(),
{
    if list.len() == 0 {
        -1
    } else if network_index(list.drop_last(), ssid) >= 0 {
        network_index(list.drop_last(), ssid)
    } else if list.last().ssid@ == ssid {
        list.len() - 1
    } else {
        -1
    }
}

proof fn lemma_network_index(list: Seq<Fg>, ssid: Seq<char>)
    ensures
        -1 <= network_index(list, ssid) < list.len(),
        network_index(list, ssid) >= 0 ==> list[network_index(list, ssid)].ssid@ == ssid,
        forall|j: int| 0 <= j < list.len() && list[j].ssid@ == ssid ==> 0 <= network_index(list, ssid) <= j,
    decreases list.len(),
{
    if list.len() > 0 {
        let d = list.drop_last();
        lemma_network_index(d, ssid);
        assert forall|j: int| 0 <= j < d.len() implies d[j] == list[j] by {}
    }
}

pub fn find_network(list: &Vec<Fg>, ssid: &str) -> (r: Option<usize>)
    ensures
        r is None <==> network_index(list@, ssid@) < 0,
        r matches Some(i) ==> i == network_index(list@, ssid@) && i < list@.len(),
{
    proof { lemma_network_index(list@, ssid@); }
    let mut i: usize = 0;
    while i < list.len()
        invariant
            i <= list@.len(),
            forall|j: int| 0 <= j < i ==> list@[j].ssid@ != ssid@,
            -1 <= network_index(list@, ssid@) < list@.len(),
            network_index(list@, ssid@) >= 0 ==> list@[network_index(list@, ssid@)].ssid@ == ssid@,
            forall|j: int| 0 <= j < list@.len() && list@[j].ssid@ == ssid@ ==> 0 <= network_index(list@, ssid@) <= j,
        decreases list@.len() - i,
    {
        if crate::util::same_text(list[i].ssid.as_str(), ssid) {
            return Some(i);
        }
        i = i + 1;
    }
    None
}

impl Iwl4965 {
    /// Starts joining `ssid`.  Refused before the hardware is set up.  A
    /// network from the scan list is taken as the target (its BSSID,
    /// channel and signal), its index returned; an unknown name is joined
    /// blindly (recorded as the connected name).  Either way the state is
    /// Connecting.
    pub fn begin_connect(&mut self, ssid: &str) -> (r: Result<Option<usize>, &'static str>)
        ensures
            !old(self).initialized ==> r == Err::<Option<usize>, &'static str>("Hardware not initialized")
                && *final(self) == *old(self),
            old(self).initialized ==> r is Ok && final(self).wifi_state == WifiState::Connecting
                && final(self).scan_results == old(self).scan_results && (match r->Ok_0 {
                Some(i) => {
                    let n = old(self).scan_results@[i as int];
                    &&& i == network_index(old(self).scan_results@, ssid@)
                    &&& final(self).connected_bssid == n.bssid
                    &&& final(self).current_channel == n.channel
                    &&& final(self).signal_dbm == n.signal_dbm
                    &&& final(self).connected_ssid == old(self).connected_ssid
                },
                None => network_index(old(self).scan_results@, ssid@) < 0 && (final(self).connected_ssid matches Some(s)
                    && s@ == ssid@),
            }),
    {
        if !self.initialized {
            return Err("Hardware not initialized");
        }
        match find_network(&self.scan_results, ssid) {
            Some(i) => {
                self.wifi_state = WifiState::Connecting;
                self.connected_bssid = self.scan_results[i].bssid;
                self.current_channel = self.scan_results[i].channel;
                self.signal_dbm = self.scan_results[i].signal_dbm;
                Ok(Some(i))
            },
            None => {
                self.wifi_state = WifiState::Connecting;
                self.connected_ssid = Some(ssid.to_string());
                Ok(None)
            },
        }
    }

    /// Marks the network `ssid` as joined.
    pub fn finish_connect(&mut self, ssid: &str)
        ensures
            (final(self).connected_ssid matches Some(s) && s@ == ssid@),
            final(self).wifi_state == WifiState::Connected,
            final(self).scan_results == old(self).scan_results,
    {
        self.connected_ssid = Some(ssid.to_string());
        self.wifi_state = WifiState::Connected;
    }
}

} // verus!
