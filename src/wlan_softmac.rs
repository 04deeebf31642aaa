//! WLAN soft-MAC bridge: the MAC-layer interface a WiFi driver offers the
//! networking stack, with its device information and session state.
use vstd::prelude::*;
use std::collections::HashMap;

verus! {

broadcast use vstd::std_specs::hash::group_hash_axioms;

/// MAC address.
pub type MacAddress = [u8; 6];

/// Result with a Zircon status as error.
pub type ZxResult<T> = Result<T, i32>;

pub const ZX_ERR_NOT_SUPPORTED: i32 = -25;
pub const ZX_ERR_INVALID_ARGS: i32 = -10;
pub const ZX_ERR_BAD_STATE: i32 = -20;

/// WiFi band.
#[derive(Debug, Clone, Copy, PartialEq, Eq, Structural)]
pub enum WlanBand {
    TwoGhz,
    FiveGhz,
}

/// PHY type.
#[derive(Debug, Clone, Copy, PartialEq, Eq, Structural)]
pub enum WlanPhyType {
    Dsss,
    Hr,
    Ofdm,
    Erp,
    Ht,
    Dmg,
    Vht,
    Tvht,
    S1g,
    He,
}

/// MAC role.
#[derive(Debug, Clone, Copy, PartialEq, Eq, Structural)]
pub enum WlanMacRole {
    Client,
    Ap,
    Mesh,
}

/// Channel bandwidth.
#[derive(Debug, Clone, Copy, PartialEq, Eq, Structural)]
pub enum ChannelBandwidth {
    Cbw20,
    Cbw40,
    Cbw40Below,
    Cbw80,
    Cbw160,
    Cbw80P80,
}

/// Channel specification.
#[derive(Debug, Clone, Copy, PartialEq, Eq, Structural)]
pub struct WlanChannel {
    pub primary: u8,
    pub cbw: ChannelBandwidth,
    pub secondary80: u8,
}

impl WlanChannel {
    /// A 20 MHz channel.
    pub fn new(primary: u8) -> (r: Self)
        ensures
            r == (WlanChannel { primary, cbw: ChannelBandwidth::Cbw20, secondary80: 0 }),
    {
        WlanChannel { primary, cbw: ChannelBandwidth::Cbw20, secondary80: 0 }
    }

    /// A channel of the given bandwidth.
    pub fn with_bandwidth(primary: u8, cbw: ChannelBandwidth) -> (r: Self)
        ensures
            r == (WlanChannel { primary, cbw, secondary80: 0 }),
    {
        WlanChannel { primary, cbw, secondary80: 0 }
    }
}

/// TX vector (rate selection).
#[derive(Debug, Clone, Copy, PartialEq, Eq, Structural)]
pub struct WlanTxVector {
    pub phy: WlanPhyType,
    pub cbw: ChannelBandwidth,
    pub mcs_idx: u8,
    pub nss: u8,
    pub gi: GuardInterval,
}

/// Guard interval.
#[derive(Debug, Clone, Copy, PartialEq, Eq, Structural)]
pub enum GuardInterval {
    LongGi,
    ShortGi,
}

/// TX information of a frame.
#[derive(Debug, Clone, Copy, PartialEq, Eq, Structural)]
pub struct WlanTxInfo {
    pub tx_flags: u32,
    pub valid_fields: u32,
    pub tx_vector: Option<WlanTxVector>,
    pub phy: WlanPhyType,
    pub cbw: ChannelBandwidth,
    pub mcs: u8,
}

impl Default for WlanTxInfo {
    /// No flags, OFDM at 20 MHz, MCS 0.
    fn default() -> (r: Self)
        ensures
            r == (WlanTxInfo {
                tx_flags: 0,
                valid_fields: 0,
                tx_vector: None,
                phy: WlanPhyType::Ofdm,
                cbw: ChannelBandwidth::Cbw20,
                mcs: 0,
            }),
    {
        WlanTxInfo {
            tx_flags: 0,
            valid_fields: 0,
            tx_vector: None,
            phy: WlanPhyType::Ofdm,
            cbw: ChannelBandwidth::Cbw20,
            mcs: 0,
        }
    }
}

/// A frame to transmit.
#[derive(Debug, Clone)]
pub struct WlanTxPacket {
    pub data: Vec<u8>,
    pub info: WlanTxInfo,
}

/// RX information of a frame.
#[derive(Debug, Clone, Copy, PartialEq, Eq, Structural)]
pub struct WlanRxInfo {
    pub rx_flags: u32,
    pub valid_fields: u32,
    pub phy: WlanPhyType,
    pub data_rate: u32,
    pub channel: WlanChannel,
    pub mcs: u8,
    pub rssi_dbm: i8,
    pub snr_dbh: i16,
}

impl Default for WlanRxInfo {
    /// OFDM on channel 1, -50 dBm, SNR 20.
    fn default() -> (r: Self)
        ensures
            r == (WlanRxInfo {
                rx_flags: 0,
                valid_fields: 0,
                phy: WlanPhyType::Ofdm,
                data_rate: 0,
                channel: WlanChannel { primary: 1, cbw: ChannelBandwidth::Cbw20, secondary80: 0 },
                mcs: 0,
                rssi_dbm: -50i8,
                snr_dbh: 20,
            }),
    {
        WlanRxInfo {
            rx_flags: 0,
            valid_fields: 0,
            phy: WlanPhyType::Ofdm,
            data_rate: 0,
            channel: WlanChannel::new(1),
            mcs: 0,
            rssi_dbm: -50,
            snr_dbh: 20,
        }
    }
}

/// A received frame.
#[derive(Debug, Clone)]
pub struct WlanRxPacket {
    pub data: Vec<u8>,
    pub info: WlanRxInfo,
}

/// Scan types.
#[derive(Debug, Clone, Copy, PartialEq, Eq, Structural)]
pub enum WlanScanType {
    Active,
    Passive,
}

/// Passive scan request.
#[derive(Debug, Clone)]
pub struct WlanSoftmacPassiveScanArgs {
    pub channels: Vec<u8>,
    pub min_channel_time_ms: u32,
    pub max_channel_time_ms: u32,
    pub min_home_time_ms: u32,
}

/// Scan result.
#[derive(Debug, Clone)]
pub struct WlanScanResult {
    pub bssid: MacAddress,
    pub ssid: Vec<u8>,
    pub rssi_dbm: i8,
    pub channel: WlanChannel,
    pub capability_info: u16,
    pub beacon_period: u16,
}

/// BSS (basic service set) configuration.
#[derive(Debug, Clone, Copy)]
pub struct WlanBssConfig {
    pub bssid: MacAddress,
    pub bss_type: BssType,
    pub remote: bool,
}

/// BSS type.
#[derive(Debug, Clone, Copy, PartialEq, Eq, Structural)]
pub enum BssType {
    Infrastructure,
    Independent,
    Mesh,
    Personal,
}

/// Key configuration.
#[derive(Debug, Clone)]
pub struct WlanKeyConfig {
    pub protection: KeyProtection,
    pub cipher_type: CipherSuiteType,
    pub key_type: KeyType,
    pub peer_addr: MacAddress,
    pub key_idx: u8,
    pub key: Vec<u8>,
    pub rsc: u64,
}

/// Key protection level.
#[derive(Debug, Clone, Copy, PartialEq, Eq, Structural)]
pub enum KeyProtection {
    /// No protection
    NoProtection,
    Rx,
    Tx,
    RxTx,
}

/// Cipher suite type.
#[derive(Debug, Clone, Copy, PartialEq, Eq, Structural)]
pub enum CipherSuiteType {
    /// No cipher
    NoCipher,
    Wep40,
    Tkip,
    Reserved,
    Ccmp128,
    Wep104,
    BipCmac128,
    Gcmp128,
    Gcmp256,
    Ccmp256,
    BipGmac128,
    BipGmac256,
    BipCmac256,
}

/// Key type.
#[derive(Debug, Clone, Copy, PartialEq, Eq, Structural)]
pub enum KeyType {
    Pairwise,
    Group,
    Igtk,
    PeerKey,
}

/// Device information.
#[derive(Debug, Clone)]
pub struct WlanSoftmacInfo {
    pub sta_addr: MacAddress,
    pub mac_role: WlanMacRole,
    pub supported_phys: Vec<WlanPhyType>,
    pub hardware_capability: u32,
    pub band_caps: Vec<WlanBandCapability>,
}

/// Capabilities in one band.
#[derive(Debug, Clone)]
pub struct WlanBandCapability {
    pub band: WlanBand,
    pub basic_rates: Vec<u8>,
    pub operating_channels: Vec<u8>,
    pub ht_supported: bool,
    pub ht_caps: Option<HtCapabilities>,
    pub vht_supported: bool,
    pub vht_caps: Option<VhtCapabilities>,
}

/// HT capabilities.
#[derive(Debug, Clone, Copy)]
pub struct HtCapabilities {
    pub ht_capability_info: u16,
    pub ampdu_params: u8,
    pub supported_mcs_set: [u8; 16],
    pub ht_ext_capabilities: u16,
    pub tx_beamforming_capabilities: u32,
    pub asel_capabilities: u8,
}

/// VHT capabilities.
#[derive(Debug, Clone, Copy)]
pub struct VhtCapabilities {
    pub vht_capability_info: u32,
    pub supported_vht_mcs_and_nss_set: u64,
}

/// MAC sublayer support.
#[derive(Debug, Clone, Copy)]
pub struct MacSublayerSupport {
    pub rate_selection_offload: RateSelectionOffloadExtension,
    pub data_plane: DataPlaneExtension,
    pub device: DeviceExtension,
}

#[derive(Debug, Clone, Copy)]
pub struct RateSelectionOffloadExtension {
    pub supported: bool,
}

#[derive(Debug, Clone, Copy)]
pub struct DataPlaneExtension {
    pub data_plane_type: DataPlaneType,
}

#[derive(Debug, Clone, Copy, PartialEq, Eq, Structural)]
pub enum DataPlaneType {
    Ethernet,
    Generic,
}

#[derive(Debug, Clone, Copy)]
pub struct DeviceExtension {
    pub is_synthetic: bool,
    pub tx_status_report_supported: bool,
}

/// Association context.
#[derive(Debug, Clone)]
pub struct AssociationContext {
    pub peer_addr: MacAddress,
    pub aid: u16,
    pub ht_caps: Option<HtCapabilities>,
    pub vht_caps: Option<VhtCapabilities>,
    pub rates: Vec<u8>,
}

/// WMM parameters.
#[derive(Debug, Clone, Copy)]
pub struct WmmParameters {
    pub ap_wmm_ps: bool,
    pub ac_be_params: WmmAcParams,
    pub ac_bk_params: WmmAcParams,
    pub ac_vi_params: WmmAcParams,
    pub ac_vo_params: WmmAcParams,
}

#[derive(Debug, Clone, Copy)]
pub struct WmmAcParams {
    pub ecw_min: u8,
    pub ecw_max: u8,
    pub aifsn: u8,
    pub txop_limit: u16,
    pub acm: bool,
}

/// TX status report.
#[derive(Debug, Clone, Copy)]
pub struct WlanTxStatus {
    pub peer_addr: MacAddress,
    pub success: bool,
    pub result: WlanTxResult,
}

#[derive(Debug, Clone, Copy, PartialEq, Eq, Structural)]
pub enum WlanTxResult {
    Success,
    Failed,
    Dropped,
}

/// `primary` is an operating channel of some band of `caps`.
pub open spec fn is_operating_channel(caps: Seq<WlanBandCapability>, primary: u8) -> bool {
    exists|b: int, i: int|
        0 <= b < caps.len() && 0 <= i < caps[b].operating_channels@.len()
            && #[trigger] caps[b].operating_channels@[i] == primary
}

/// The operating channels of the 2.4 GHz band: 1 to 13.
pub open spec fn channels_1_to_13() -> Seq<u8> {
    Seq::new(13, |i: int| (i + 1) as u8)
}

/// The soft-MAC bridge, delivering received frames to a callback `F`.
pub struct WlanSoftmacBridge<F: Fn(WlanRxPacket)> {
    info: WlanSoftmacInfo,
    started: bool,
    current_channel: Option<WlanChannel>,
    current_bss: Option<WlanBssConfig>,
    installed_keys: HashMap<u8, WlanKeyConfig>,
    scan_results: Vec<WlanScanResult>,
    rx_callback: Option<F>,
}

impl<F: Fn(WlanRxPacket)> WlanSoftmacBridge<F> {
    pub closed spec fn spec_info(&self) -> WlanSoftmacInfo {
        self.info
    }

    pub closed spec fn spec_started(&self) -> bool {
        self.started
    }

    pub closed spec fn spec_channel(&self) -> Option<WlanChannel> {
        self.current_channel
    }

    pub closed spec fn spec_bss(&self) -> Option<WlanBssConfig> {
        self.current_bss
    }

    /// Installed keys by index.
    pub closed spec fn spec_keys(&self) -> Map<u8, WlanKeyConfig> {
        self.installed_keys@
    }

    pub closed spec fn spec_scan_results(&self) -> Seq<WlanScanResult> {
        self.scan_results@
    }

    pub closed spec fn spec_callback(&self) -> Option<F> {
        self.rx_callback
    }

    /// The session state other than `started` and the channel is unchanged.
    pub open spec fn same_session(a: &Self, b: &Self) -> bool {
        &&& a.spec_info() == b.spec_info()
        &&& a.spec_bss() == b.spec_bss()
        &&& a.spec_keys() == b.spec_keys()
        &&& a.spec_scan_results() == b.spec_scan_results()
    }

    /// Nothing observable changed.
    pub open spec fn unchanged(a: &Self, b: &Self) -> bool {
        &&& Self::same_session(a, b)
        &&& a.spec_started() == b.spec_started()
        &&& a.spec_channel() == b.spec_channel()
        &&& a.spec_callback() == b.spec_callback()
    }

    /// A stopped client-mode bridge: OFDM and HT, one 2.4 GHz band with
    /// channels 1-13 and HT capabilities, no VHT.
    pub fn new(sta_addr: MacAddress) -> (r: Self)
        ensures
            r.spec_info().sta_addr == sta_addr,
            r.spec_info().mac_role == WlanMacRole::Client,
            r.spec_info().supported_phys@ == seq![WlanPhyType::Ofdm, WlanPhyType::Ht],
            r.spec_info().band_caps@.len() == 1,
            r.spec_info().band_caps@[0].band == WlanBand::TwoGhz,
            r.spec_info().band_caps@[0].operating_channels@ == channels_1_to_13(),
            r.spec_info().band_caps@[0].ht_supported,
            !r.spec_info().band_caps@[0].vht_supported,
            !r.spec_started(),
            r.spec_channel() is None,
            r.spec_bss() is None,
            r.spec_keys() == Map::<u8, WlanKeyConfig>::empty(),
            r.spec_scan_results() == Seq::<WlanScanResult>::empty(),
            r.spec_callback() is None,
    {
        let mut operating_channels: Vec<u8> = Vec::new();
        let mut ch: u8 = 1;
        while ch <= 13
            invariant
                1 <= ch <= 14,
                operating_channels@ == Seq::new((ch - 1) as nat, |i: int| (i + 1) as u8),
            decreases 14 - ch,
        {
            operating_channels.push(ch);
            ch = ch + 1;
            assert(operating_channels@ =~= Seq::new((ch - 1) as nat, |i: int| (i + 1) as u8));
        }
        let band = WlanBandCapability {
            band: WlanBand::TwoGhz,
            basic_rates: vec![2, 4, 11, 22, 12, 18, 24, 36, 48, 72, 96, 108],
            operating_channels,
            ht_supported: true,
            ht_caps: Some(
                HtCapabilities {
                    ht_capability_info: 0x016e,
                    ampdu_params: 0x17,
                    supported_mcs_set: [0xff, 0, 0, 0, 0, 0, 0, 0, 0, 0, 0, 0, 0, 0, 0, 0],
                    ht_ext_capabilities: 0,
                    tx_beamforming_capabilities: 0,
                    asel_capabilities: 0,
                },
            ),
            vht_supported: false,
            vht_caps: None,
        };
        let info = WlanSoftmacInfo {
            sta_addr,
            mac_role: WlanMacRole::Client,
            supported_phys: vec![WlanPhyType::Ofdm, WlanPhyType::Ht],
            hardware_capability: 0,
            band_caps: vec![band],
        };
        WlanSoftmacBridge {
            info,
            started: false,
            current_channel: None,
            current_bss: None,
            installed_keys: HashMap::new(),
            scan_results: Vec::new(),
            rx_callback: None,
        }
    }

    /// Device information.
    pub fn query(&self) -> (r: ZxResult<&WlanSoftmacInfo>)
        ensures
            r matches Ok(i) && *i == self.spec_info(),
    {
        Ok(&self.info)
    }

    /// MAC sublayer support: no rate-selection offload, an Ethernet data
    /// plane, a physical device that reports TX status.
    pub fn query_mac_sublayer_support(&self) -> (r: MacSublayerSupport)
        ensures
            !r.rate_selection_offload.supported,
            r.data_plane.data_plane_type == DataPlaneType::Ethernet,
            !r.device.is_synthetic,
            r.device.tx_status_report_supported,
    {
        MacSublayerSupport {
            rate_selection_offload: RateSelectionOffloadExtension { supported: false },
            data_plane: DataPlaneExtension { data_plane_type: DataPlaneType::Ethernet },
            device: DeviceExtension { is_synthetic: false, tx_status_report_supported: true },
        }
    }

    /// Start the device on channel 1, delivering received frames to
    /// `rx_callback`; a started device refuses with `ZX_ERR_BAD_STATE`.
    pub fn start(&mut self, rx_callback: F) -> (r: ZxResult<WlanChannel>)
        ensures
            old(self).spec_started() ==> r == Err::<WlanChannel, i32>(ZX_ERR_BAD_STATE) && Self::unchanged(
                final(self),
                old(self),
            ),
            !old(self).spec_started() ==> r == Ok::<WlanChannel, i32>(
                WlanChannel { primary: 1, cbw: ChannelBandwidth::Cbw20, secondary80: 0 },
            ) && final(self).spec_started() && final(self).spec_channel() == Some(
                WlanChannel { primary: 1, cbw: ChannelBandwidth::Cbw20, secondary80: 0 },
            ) && final(self).spec_callback() == Some(rx_callback),
            Self::same_session(final(self), old(self)),
    {
        if self.started {
            return Err(ZX_ERR_BAD_STATE);
        }
        self.rx_callback = Some(rx_callback);
        self.started = true;
        let channel = WlanChannel::new(1);
        self.current_channel = Some(channel);
        Ok(channel)
    }

    /// Stop the device and drop the callback; a stopped device refuses with
    /// `ZX_ERR_BAD_STATE`.
    pub fn stop(&mut self) -> (r: ZxResult<()>)
        ensures
            !old(self).spec_started() ==> r == Err::<(), i32>(ZX_ERR_BAD_STATE) && Self::unchanged(
                final(self),
                old(self),
            ),
            old(self).spec_started() ==> r is Ok && !final(self).spec_started() && final(self).spec_callback() is None && final(self).spec_channel() == old(self).spec_channel(),
            Self::same_session(final(self), old(self)),
    {
        if !self.started {
            return Err(ZX_ERR_BAD_STATE);
        }
        self.started = false;
        self.rx_callback = None;
        Ok(())
    }

    /// Whether `primary` is an operating channel of some band.
    fn is_valid_channel(&self, primary: u8) -> (r: bool)
        ensures
            r == is_operating_channel(self.info.band_caps@, primary),
    {
        let caps = &self.info.band_caps;
        let mut b: usize = 0;
        let mut found = false;
        while b < caps.len() && !found
            invariant
                b <= caps@.len(),
                found ==> is_operating_channel(caps@, primary),
                !found ==> forall|bb: int, i: int|
                    0 <= bb < b && 0 <= i < caps@[bb].operating_channels@.len()
                        ==> #[trigger] caps@[bb].operating_channels@[i] != primary,
            decreases caps@.len() - b + (if found { 0int } else { 1int }),
        {
            let chans = &caps[b].operating_channels;
            let mut i: usize = 0;
            while i < chans.len() && !found
                invariant
                    b < caps@.len(),
                    *chans == caps@[b as int].operating_channels,
                    i <= chans@.len(),
                    found ==> is_operating_channel(caps@, primary),
                    !found ==> forall|k: int| 0 <= k < i ==> #[trigger] chans@[k] != primary,
                decreases chans@.len() - i + (if found { 0int } else { 1int }),
            {
                if chans[i] == primary {
                    found = true;
                    assert(caps@[b as int].operating_channels@[i as int] == primary);
                } else {
                    i = i + 1;
                }
            }
            if !found {
                b = b + 1;
            }
        }
        found
    }

    /// Tune to `channel`: the device must be started and the primary channel
    /// must be an operating channel.
    pub fn set_channel(&mut self, channel: WlanChannel) -> (r: ZxResult<()>)
        ensures
            !old(self).spec_started() ==> r == Err::<(), i32>(ZX_ERR_BAD_STATE),
            old(self).spec_started() && !is_operating_channel(old(self).spec_info().band_caps@, channel.primary)
                ==> r == Err::<(), i32>(ZX_ERR_INVALID_ARGS),
            old(self).spec_started() && is_operating_channel(old(self).spec_info().band_caps@, channel.primary)
                ==> r is Ok && final(self).spec_channel() == Some(channel),
            r is Err ==> Self::unchanged(final(self), old(self)),
            Self::same_session(final(self), old(self)),
            final(self).spec_started() == old(self).spec_started(),
            final(self).spec_callback() == old(self).spec_callback(),
    {
        if !self.started {
            return Err(ZX_ERR_BAD_STATE);
        }
        if !self.is_valid_channel(channel.primary) {
            return Err(ZX_ERR_INVALID_ARGS);
        }
        self.current_channel = Some(channel);
        Ok(())
    }

    /// Join a BSS; the device must be started.
    pub fn join_bss(&mut self, config: WlanBssConfig) -> (r: ZxResult<()>)
        ensures
            !old(self).spec_started() ==> r == Err::<(), i32>(ZX_ERR_BAD_STATE) && Self::unchanged(
                final(self),
                old(self),
            ),
            old(self).spec_started() ==> r is Ok && final(self).spec_bss() == Some(config),
            final(self).spec_keys() == old(self).spec_keys(),
            final(self).spec_started() == old(self).spec_started(),
            final(self).spec_channel() == old(self).spec_channel(),
    {
        if !self.started {
            return Err(ZX_ERR_BAD_STATE);
        }
        self.current_bss = Some(config);
        Ok(())
    }

    /// Leave the current BSS and forget all keys; without a BSS, refuse with
    /// `ZX_ERR_BAD_STATE`.
    pub fn leave_bss(&mut self) -> (r: ZxResult<()>)
        ensures
            old(self).spec_bss() is None ==> r == Err::<(), i32>(ZX_ERR_BAD_STATE) && Self::unchanged(
                final(self),
                old(self),
            ),
            old(self).spec_bss() is Some ==> r is Ok && final(self).spec_bss() is None && final(self).spec_keys() == Map::<u8, WlanKeyConfig>::empty(),
            final(self).spec_started() == old(self).spec_started(),
            final(self).spec_channel() == old(self).spec_channel(),
    {
        if self.current_bss.is_none() {
            return Err(ZX_ERR_BAD_STATE);
        }
        self.current_bss = None;
        self.installed_keys.clear();
        Ok(())
    }

    /// Install a key under its index, replacing any key there; the device
    /// must be started.
    pub fn install_key(&mut self, key: WlanKeyConfig) -> (r: ZxResult<()>)
        ensures
            !old(self).spec_started() ==> r == Err::<(), i32>(ZX_ERR_BAD_STATE) && Self::unchanged(
                final(self),
                old(self),
            ),
            old(self).spec_started() ==> r is Ok && final(self).spec_keys() == old(self).spec_keys().insert(
                key.key_idx,
                key,
            ),
            final(self).spec_bss() == old(self).spec_bss(),
            final(self).spec_started() == old(self).spec_started(),
    {
        if !self.started {
            return Err(ZX_ERR_BAD_STATE);
        }
        self.installed_keys.insert(key.key_idx, key);
        Ok(())
    }

    /// Start a passive scan, discarding earlier results; returns scan ID 1.
    pub fn start_passive_scan(&mut self, args: WlanSoftmacPassiveScanArgs) -> (r: ZxResult<u64>)
        ensures
            !old(self).spec_started() ==> r == Err::<u64, i32>(ZX_ERR_BAD_STATE) && Self::unchanged(
                final(self),
                old(self),
            ),
            old(self).spec_started() ==> r == Ok::<u64, i32>(1) && final(self).spec_scan_results()
                == Seq::<WlanScanResult>::empty(),
            final(self).spec_started() == old(self).spec_started(),
            final(self).spec_bss() == old(self).spec_bss(),
    {
        if !self.started {
            return Err(ZX_ERR_BAD_STATE);
        }
        self.scan_results.clear();
        Ok(1)
    }

    /// Cancel a scan; the device must be started.
    pub fn cancel_scan(&mut self, scan_id: u64) -> (r: ZxResult<()>)
        ensures
            !old(self).spec_started() ==> r == Err::<(), i32>(ZX_ERR_BAD_STATE),
            old(self).spec_started() ==> r is Ok,
            Self::unchanged(final(self), old(self)),
    {
        if !self.started {
            return Err(ZX_ERR_BAD_STATE);
        }
        Ok(())
    }

    /// Queue a frame for transmission; the device must be started.
    pub fn queue_tx(&mut self, packet: WlanTxPacket) -> (r: ZxResult<()>)
        ensures
            !old(self).spec_started() ==> r == Err::<(), i32>(ZX_ERR_BAD_STATE),
            old(self).spec_started() ==> r is Ok,
            Self::unchanged(final(self), old(self)),
    {
        if !self.started {
            return Err(ZX_ERR_BAD_STATE);
        }
        Ok(())
    }

    /// Start beaconing; only an access point can.
    pub fn enable_beaconing(&mut self, beacon_packet: WlanTxPacket) -> (r: ZxResult<()>)
        ensures
            old(self).spec_info().mac_role != WlanMacRole::Ap ==> r == Err::<(), i32>(
                ZX_ERR_NOT_SUPPORTED,
            ),
            old(self).spec_info().mac_role == WlanMacRole::Ap ==> r is Ok,
            Self::unchanged(final(self), old(self)),
    {
        if self.info.mac_role != WlanMacRole::Ap {
            return Err(ZX_ERR_NOT_SUPPORTED);
        }
        Ok(())
    }

    /// Stop beaconing.
    pub fn disable_beaconing(&mut self) -> (r: ZxResult<()>)
        ensures
            r is Ok,
            Self::unchanged(final(self), old(self)),
    {
        Ok(())
    }

    /// Configure the BSS this device serves.
    pub fn configure_bss(&mut self, config: WlanBssConfig) -> (r: ZxResult<()>)
        ensures
            r is Ok,
            final(self).spec_bss() == Some(config),
            final(self).spec_keys() == old(self).spec_keys(),
            final(self).spec_started() == old(self).spec_started(),
            final(self).spec_channel() == old(self).spec_channel(),
    {
        self.current_bss = Some(config);
        Ok(())
    }

    /// Record an association; the device must be started.
    pub fn configure_association(&mut self, assoc_ctx: AssociationContext) -> (r: ZxResult<()>)
        ensures
            !old(self).spec_started() ==> r == Err::<(), i32>(ZX_ERR_BAD_STATE),
            old(self).spec_started() ==> r is Ok,
            Self::unchanged(final(self), old(self)),
    {
        if !self.started {
            return Err(ZX_ERR_BAD_STATE);
        }
        Ok(())
    }

    /// Forget an association.
    pub fn clear_association(&mut self, peer_addr: MacAddress) -> (r: ZxResult<()>)
        ensures
            r is Ok,
            Self::unchanged(final(self), old(self)),
    {
        Ok(())
    }

    /// Update WMM parameters.
    pub fn update_wmm_parameters(&mut self, params: WmmParameters) -> (r: ZxResult<()>)
        ensures
            r is Ok,
            Self::unchanged(final(self), old(self)),
    {
        Ok(())
    }

    /// Deliver a received frame to the callback, if the device has one.
    pub fn notify_rx(&self, packet: WlanRxPacket)
        requires
            self.spec_callback() matches Some(f) ==> f.requires((packet,)),
    {
        if let Some(callback) = &self.rx_callback {
            callback(packet);
        }
    }

    /// Report a TX status to upper layers.
    pub fn report_tx_status(&self, status: WlanTxStatus) {
    }

    /// The current channel.
    pub fn get_channel(&self) -> (r: Option<WlanChannel>)
        ensures
            r == self.spec_channel(),
    {
        self.current_channel
    }

    /// Whether the device is started.
    pub fn is_started(&self) -> (r: bool)
        ensures
            r == self.spec_started(),
    {
        self.started
    }
}

} // verus!
