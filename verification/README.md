# zigbee2mqtt-operator

A Kubernetes operator to manage resources on Zigbee2MQTT instances.

- `src/` is a library, verified with Verus, that holds the decisions of the operator: which values are
  valid, what has to be changed, what is reported, and what follows an event. What is wanted of each
  function is stated in its `requires` and `ensures` clauses. Public proof functions state what holds
  of several functions together.
- `tests/` holds the tests of the library.
- `app/` is the program around it. It talks to Kubernetes and to the MQTT broker, turns messages into
  values of the library and back, and does what the library decides.

## Commands

- `run` reconciles all `Instance`, `Device` and `Group` resources.
- `crdgen` prints the definitions of these resources as YAML.

## Settings

The program reads these environment variables, all of which are numbers of seconds:

- `Z2MOP_ACTION_TIMEOUT`: the timeout for responses from Zigbee2MQTT (5).
- `Z2MOP_RECONCILE_INTERVAL`: the maximum interval between reconciles of a resource (60).
- `Z2MOP_RECONCILE_INTERVAL_FAILURE`: the maximum time to wait after a failed reconcile (the interval
  above if it is set, or else 15).
