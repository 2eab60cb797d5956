use super::CSI;
use vstd::prelude::*;

verus! {

/// Resets colors and style.
pub fn reset() -> (c: CSI)
    ensures
        c.0@ == "0m"@,
{
    CSI("0m")
}

pub fn black_foreground() -> (c: CSI)
    ensures
        c.0@ == "30m"@,
{
    CSI("30m")
}

pub fn bright_black_foreground() -> (c: CSI)
    ensures
        c.0@ == "90m"@,
{
    CSI("90m")
}

pub fn red_foreground() -> (c: CSI)
    ensures
        c.0@ == "31m"@,
{
    CSI("31m")
}

pub fn red_background() -> (c: CSI)
    ensures
        c.0@ == "41m"@,
{
    CSI("41m")
}

pub fn green_foreground() -> (c: CSI)
    ensures
        c.0@ == "32m"@,
{
    CSI("32m")
}

pub fn bright_green_background() -> (c: CSI)
    ensures
        c.0@ == "102m"@,
{
    CSI("102m")
}

pub fn yellow_foreground() -> (c: CSI)
    ensures
        c.0@ == "33m"@,
{
    CSI("33m")
}

pub fn yellow_background() -> (c: CSI)
    ensures
        c.0@ == "43m"@,
{
    CSI("43m")
}

pub fn bright_yellow_foreground() -> (c: CSI)
    ensures
        c.0@ == "93m"@,
{
    CSI("93m")
}

pub fn blue_foreground() -> (c: CSI)
    ensures
        c.0@ == "34m"@,
{
    CSI("34m")
}

pub fn bright_blue_foreground() -> (c: CSI)
    ensures
        c.0@ == "94m"@,
{
    CSI("94m")
}

pub fn magenta_foreground() -> (c: CSI)
    ensures
        c.0@ == "35m"@,
{
    CSI("35m")
}

pub fn cyan_foreground() -> (c: CSI)
    ensures
        c.0@ == "36m"@,
{
    CSI("36m")
}

pub fn bright_white_background() -> (c: CSI)
    ensures
        c.0@ == "107m"@,
{
    CSI("107m")
}

pub fn default_foreground() -> (c: CSI)
    ensures
        c.0@ == "39m"@,
{
    CSI("39m")
}

pub fn default_background() -> (c: CSI)
    ensures
        c.0@ == "49m"@,
{
    CSI("49m")
}

} // verus!
