//! What the tray shows: the monitor, the icon builder, and the state whose icon
//! the tray took last, so that an icon is drawn only when the state changes.

use crate::battery_monitor::{
    next_state, snapshot, BatteryInfo, BatteryMonitor, MonitorState, ProviderError, RawSample,
};
use crate::icon_builder::{percentage_icon, Assets, IconBuilder};
use crate::icon_image::IconImage;
use vstd::prelude::*;

verus! {

/// A tray icon's state as a mathematical value.
pub struct TrayState {
    pub monitor: MonitorState,
    pub assets: Assets,
    /// The battery state that the icon on display was drawn for.
    pub shown: Option<BatteryInfo>,
}

pub struct BatteryTrayIcon {
    battery_monitor: BatteryMonitor,
    icon_builder: IconBuilder,
    cached_battery_info: Option<BatteryInfo>,
}

impl View for BatteryTrayIcon {
    type V = TrayState;

    closed spec fn view(&self) -> TrayState {
        TrayState {
            monitor: self.battery_monitor@,
            assets: self.icon_builder@,
            shown: self.cached_battery_info,
        }
    }
}

/// The icon for a battery state.
pub open spec fn icon_for(assets: Assets, info: BatteryInfo) -> crate::icon_image::Raster {
    percentage_icon(
        assets,
        info.percentage as int,
        info.discharge_rate_percent as int,
        info.is_charging,
    )
}

impl BatteryTrayIcon {
    pub closed spec fn wf(&self) -> bool {
        self.battery_monitor.wf() && self.icon_builder.wf()
    }

    /// A tray icon that has shown nothing yet, so that the first poll draws.
    pub fn new(battery_monitor: BatteryMonitor, icon_builder: IconBuilder) -> (tray: Self)
        requires
            battery_monitor.wf(),
            icon_builder.wf(),
        ensures
            tray.wf(),
            tray@ == (TrayState {
                monitor: battery_monitor@,
                assets: icon_builder@,
                shown: None,
            }),
    {
        BatteryTrayIcon { battery_monitor, icon_builder, cached_battery_info: None }
    }

    /// One poll. A failed reading is handed on and changes nothing. A reading
    /// goes to the monitor; if the state it reports is the one on display, no
    /// icon is drawn, else that state's icon is drawn and handed out with the
    /// state. What counts as on display does not change: it changes only once
    /// the tray has taken the icon and `confirm_shown` says so, so that an icon
    /// that the tray refused is drawn again at the next poll.
    pub fn sync_tray_icon(&mut self, reading: Result<RawSample, ProviderError>, now_ms: u64) -> (outcome:
        Result<Option<(BatteryInfo, IconImage)>, ProviderError>)
        requires
            old(self).wf(),
        ensures
            final(self).wf(),
            final(self)@.assets == old(self)@.assets,
            final(self)@.shown == old(self)@.shown,
            match reading {
                Err(e) => outcome == Err::<Option<(BatteryInfo, IconImage)>, ProviderError>(e)
                    && final(self)@ == old(self)@,
                Ok(sample) => {
                    let info = snapshot(old(self)@.monitor, sample, now_ms as int);
                    &&& final(self)@.monitor == next_state(old(self)@.monitor, sample, now_ms as int)
                    &&& match outcome {
                        Ok(None) => old(self)@.shown == Some(info),
                        Ok(Some((drawn_for, icon))) => {
                            &&& old(self)@.shown != Some(info)
                            &&& drawn_for == info
                            &&& icon.wf()
                            &&& icon@ == icon_for(old(self)@.assets, info)
                        },
                        Err(_) => false,
                    }
                },
            },
    {
        let battery_info = match self.battery_monitor.get_battery_info(reading, now_ms) {
            Ok(info) => info,
            Err(e) => {
                return Err(e);
            },
        };
        let unchanged = match self.cached_battery_info {
            Some(shown) => shown == battery_info,
            None => false,
        };
        if unchanged {
            Ok(None)
        } else {
            let icon_image = self.icon_builder.create_percentage_icon(
                battery_info.percentage,
                battery_info.discharge_rate_percent,
                battery_info.is_charging,
            );
            Ok(Some((battery_info, icon_image)))
        }
    }

    /// Records that the tray now shows the icon of the given state.
    pub fn confirm_shown(&mut self, info: BatteryInfo)
        requires
            old(self).wf(),
        ensures
            final(self).wf(),
            final(self)@ == (TrayState { shown: Some(info), ..old(self)@ }),
    {
        self.cached_battery_info = Some(info);
    }

    /// The battery state that the icon on display was drawn for.
    pub fn cached_battery_info(&self) -> (shown: Option<BatteryInfo>)
        ensures
            shown == self@.shown,
    {
        self.cached_battery_info
    }
}

} // verus!
