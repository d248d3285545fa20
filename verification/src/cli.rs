//! Reading the arguments of the command line.

use vstd::prelude::*;
use vstd::string::*;

use crate::id::{self, RobotId, RosDomainId};
use crate::text;

verus! {

/// Reads a robot ID from the command line.
pub fn parse_robot_id(value: &str) -> (r: Result<RobotId, String>)
    ensures
        r is Ok <==> id::valid_robot_id(value@),
        r matches Ok(robot_id) ==> robot_id@ == value@,
        r matches Err(message) ==> (id::robot_id_fault(value@) matches Some(fault) && message@
            == "invalid robot ID '"@ + value@ + "': "@ + fault.message()),
{
    match RobotId::new(value) {
        Ok(robot_id) => Ok(robot_id),
        Err(err) => Err(
            text::cat4("invalid robot ID '", value, "': ", err.to_string().as_str()),
        ),
    }
}

/// Reads a ROS domain ID from the command line.
pub fn parse_ros_domain_id(value: &str) -> (r: Result<RosDomainId, String>)
    ensures
        r is Ok <==> id::ros_domain_of(value@) is Some,
        r matches Ok(ros_domain_id) ==> id::ros_domain_of(value@) == Some(ros_domain_id@),
        r matches Err(message) ==> message@ == "invalid ROS domain ID '"@ + value@ + "': "@
            + id::ros_domain_fault_message(value@),
{
    match RosDomainId::parse(value) {
        Ok(ros_domain_id) => Ok(ros_domain_id),
        Err(err) => Err(
            text::cat4("invalid ROS domain ID '", value, "': ", err.to_string().as_str()),
        ),
    }
}

} // verus!
